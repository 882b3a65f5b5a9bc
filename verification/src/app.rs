//! Where the user stands in the workspace.

use std::path::PathBuf;
use trie_rs::inc_search::Position;
use vstd::prelude::*;

use crate::bazel::{
    BzlCommand, DetailQueries, Invocation, Rule, RuleView, bzl, detail_queries, rule_views,
    target, target_text,
};
use crate::bazel;
use crate::text::{
    Text, join_from, joined, less, text_less, text_less_irreflexive, text_less_total,
    text_less_transitive, texts,
};
use crate::trie::{
    PackageTrie, Packages, Path, found_path, is_node, position_path, predictive_search, prefix,
    query, start, trie_entries, value,
};

verus! {

/// The workspace that is shown and the way that led to the package shown: the
/// positions of the packages entered, its sub-packages and its rules.
#[derive(Debug)]
pub struct AppState {
    pub trie: PackageTrie,
    pub positions: Vec<Position>,
    pub children: Vec<String>,
    pub rules: Vec<Rule>,
    pub workspace_dir: PathBuf,
}

/// What the state of the application holds.
pub struct AppView {
    pub packages: Packages,
    pub stack: Seq<Path>,
    pub children: Seq<Text>,
    pub rules: Seq<RuleView>,
    pub workspace_dir: PathBuf,
}

/// The path of the workspace's root: an empty component, unless there are no
/// packages.
pub open spec fn root_path(packages: Packages) -> Path {
    if is_node(packages, seq![Seq::empty()]) {
        seq![Seq::empty()]
    } else {
        Seq::empty()
    }
}

/// Each text comes before the ones that follow it.
pub open spec fn is_sorted(list: Seq<Text>) -> bool {
    forall|i: int, j: int|
        0 <= i < j < list.len() ==> text_less(#[trigger] list[i], #[trigger] list[j])
}

/// `children` are the components by which the packages below `path` go on, each
/// of them once and in order.
pub open spec fn is_listing(children: Seq<Text>, packages: Packages, path: Path) -> bool {
    &&& is_sorted(children)
    &&& forall|label: Text| #[trigger]
        children.contains(label) <==> is_node(packages, path.push(label))
}

/// The components by which the packages below `path` go on, in order.
pub open spec fn child_listing(packages: Packages, path: Path) -> Seq<Text> {
    choose|children: Seq<Text>| is_listing(children, packages, path)
}

/// The rules of the package with the given path; none if there is no such
/// package.
pub open spec fn package_rules(packages: Packages, path: Path) -> Seq<RuleView> {
    if packages.dom().contains(path) {
        packages[path]
    } else {
        Seq::empty()
    }
}

impl AppView {
    /// The path of the package shown.
    pub open spec fn current(self) -> Path {
        if self.stack.len() > 0 {
            self.stack.last()
        } else {
            root_path(self.packages)
        }
    }

    /// The sub-packages are those of the package shown, each of them once and in order.
    pub open spec fn is_listed(self) -> bool {
        is_listing(self.children, self.packages, self.current())
    }

    /// The same place, with the sub-packages and the rules that belong to it.
    pub open spec fn refreshed(self) -> AppView {
        AppView {
            children: child_listing(self.packages, self.current()),
            rules: package_rules(self.packages, self.current()),
            ..self
        }
    }

    /// One step back, unless this is the first place.
    pub open spec fn above(self) -> AppView {
        if self.stack.len() > 1 {
            (AppView { stack: self.stack.drop_last(), ..self }).refreshed()
        } else {
            self
        }
    }

    /// The path of the sub-package with the given component; the path shown if
    /// there is no such sub-package.
    pub open spec fn below_path(self, label: Text) -> Path {
        if is_node(self.packages, self.current().push(label)) {
            self.current().push(label)
        } else {
            self.current()
        }
    }

    /// The place of the sub-package at index `i`; this place if there is none.
    pub open spec fn below(self, i: int) -> AppView {
        if 0 <= i < self.children.len() {
            (AppView {
                stack: self.stack.push(self.below_path(self.children[i])),
                ..self
            }).refreshed()
        } else {
            self
        }
    }

    /// The path of the package shown, as labels spell it: without the component
    /// for the root.
    pub open spec fn package(self) -> Text {
        joined(self.current().skip(1), "/"@)
    }
}

impl View for AppState {
    type V = AppView;

    open spec fn view(&self) -> AppView {
        AppView {
            packages: trie_entries(self.trie),
            stack: self.positions@.map_values(|p: Position| position_path(self.trie, p)->0),
            children: texts(self.children@),
            rules: rule_views(self.rules@),
            workspace_dir: self.workspace_dir,
        }
    }
}

/// There is only one listing of what is below a path.
pub proof fn listing_unique(children: Seq<Text>, packages: Packages, path: Path)
    requires
        is_listing(children, packages, path),
    ensures
        children == child_listing(packages, path),
{
    let other = child_listing(packages, path);
    assert(is_listing(other, packages, path));
    assert forall|x: Text| children.contains(x) <==> other.contains(x) by {
        assert(children.contains(x) <==> is_node(packages, path.push(x)));
        assert(other.contains(x) <==> is_node(packages, path.push(x)));
    }
    lemma_sorted_unique(children, other);
}

proof fn lemma_sorted_unique(s: Seq<Text>, t: Seq<Text>)
    requires
        is_sorted(s),
        is_sorted(t),
        forall|x: Text| s.contains(x) <==> t.contains(x),
    ensures
        s == t,
    decreases s.len(),
{
    if s.len() == 0 {
        if t.len() > 0 {
            assert(t.contains(t[0]));
            assert(s.contains(t[0]));
        }
        assert(s =~= t);
    } else {
        assert(s.contains(s[0]));
        assert(t.contains(s[0]));
        let a = s.last();
        let b = t.last();
        assert(s.contains(a));
        assert(t.contains(b));
        assert(t.contains(a) && s.contains(b));
        let i = choose|i: int| 0 <= i < s.len() && s[i] == b;
        let j = choose|j: int| 0 <= j < t.len() && t[j] == a;
        assert(a == b) by {
            if i < s.len() - 1 && j < t.len() - 1 {
                assert(text_less(s[i], a));
                assert(text_less(t[j], b));
                text_less_transitive(a, b, a);
                text_less_irreflexive(a);
            }
        }
        let s1 = s.drop_last();
        let t1 = t.drop_last();
        assert forall|x: Text| s1.contains(x) <==> t1.contains(x) by {
            if s1.contains(x) {
                let k = choose|k: int| 0 <= k < s1.len() && s1[k] == x;
                assert(s[k] == x);
                assert(text_less(s[k], s[s.len() - 1]));
                text_less_irreflexive(a);
                assert(s.contains(x));
                let m = choose|m: int| 0 <= m < t.len() && t[m] == x;
                assert(m < t.len() - 1);
                assert(t1[m] == x);
            }
            if t1.contains(x) {
                let k = choose|k: int| 0 <= k < t1.len() && t1[k] == x;
                assert(t[k] == x);
                assert(text_less(t[k], t[t.len() - 1]));
                text_less_irreflexive(a);
                assert(t.contains(x));
                let m = choose|m: int| 0 <= m < s.len() && s[m] == x;
                assert(m < s.len() - 1);
                assert(s1[m] == x);
            }
        }
        lemma_sorted_unique(s1, t1);
        assert(s =~= s1.push(a));
        assert(t =~= t1.push(b));
    }
}

/// Adds a text to a sorted list, unless the list has it.
fn insert_sorted(list: &mut Vec<String>, item: &String)
    requires
        is_sorted(texts(old(list)@)),
    ensures
        is_sorted(texts(final(list)@)),
        forall|x: Text| #[trigger]
            texts(final(list)@).contains(x) <==> texts(old(list)@).contains(x) || x == item@,
{
    let ghost before = texts(list@);
    let mut i: usize = list.len();
    while i > 0 && less(item.as_str(), list[i - 1].as_str())
        invariant
            i <= list@.len(),
            texts(list@) == before,
            forall|k: int| i <= k < list@.len() ==> text_less(item@, #[trigger] before[k]),
        decreases i,
    {
        i -= 1;
    }
    if i > 0 && list[i - 1] == *item {
        assert(before[i - 1] == item@);
        assert(before.contains(item@));
        return ;
    }
    if i > 0 {
        proof {
            text_less_total(item@, before[i - 1]);
        }
    }
    list.insert(i, item.clone());
    proof {
        let after = texts(list@);
        assert(after =~= before.insert(i as int, item@));
        assert forall|a: int, b: int| 0 <= a < b < after.len() implies text_less(
            #[trigger] after[a],
            #[trigger] after[b],
        ) by {
            let x = if a < i { a } else { a - 1 };
            let y = if b < i { b } else { b - 1 };
            if a != i && b != i {
                assert(text_less(before[x], before[y]));
            } else if a == i {
                assert(text_less(item@, before[y]));
            } else {
                assert(text_less(before[i - 1], item@));
                if a < i - 1 {
                    assert(text_less(before[a], before[i - 1]));
                    text_less_transitive(before[a], before[i - 1], item@);
                }
            }
        }
        assert forall|x: Text| #[trigger] after.contains(x) <==> before.contains(x) || x
            == item@ by {
            if before.contains(x) {
                let k = choose|k: int| 0 <= k < before.len() && before[k] == x;
                if k < i {
                    assert(after[k] == x);
                } else {
                    assert(after[k + 1] == x);
                }
            }
            if x == item@ {
                assert(after[i as int] == x);
            }
            if after.contains(x) && x != item@ {
                let k = choose|k: int| 0 <= k < after.len() && after[k] == x;
                if k < i {
                    assert(before[k] == x);
                } else {
                    assert(before[k - 1] == x);
                }
            }
        }
    }
}

/// The package at index `k` lies below the place with a path of length `depth`,
/// and its path goes on with `label`.
spec fn goes_on(found: Seq<(Vec<String>, &Vec<Rule>)>, k: int, depth: int, label: Text) -> bool {
    found_path(found[k]).len() > depth && found_path(found[k])[depth] == label
}

impl AppState {
    /// Every position is one of the trie.
    pub open spec fn wf(&self) -> bool {
        forall|i: int|
            0 <= i < self.positions@.len() ==> position_path(
                self.trie,
                #[trigger] self.positions@[i],
            ) is Some
    }

    /// The position of the workspace's root.
    fn root_position(&self) -> (r: Position)
        ensures
            position_path(self.trie, r) == Some(root_path(self@.packages)),
    {
        let top = start(&self.trie);
        assert(Seq::<Text>::empty().push(Seq::empty()) =~= seq![Seq::empty()]);
        query(&self.trie, top, &String::new())
    }

    /// The position of the package shown.
    fn current_position(&self) -> (r: Position)
        requires
            self.wf(),
        ensures
            position_path(self.trie, r) == Some(self@.current()),
    {
        if self.positions.len() > 0 {
            self.positions[self.positions.len() - 1]
        } else {
            self.root_position()
        }
    }

    /// The path of the package shown.
    pub fn current_prefix(&self) -> (r: Vec<String>)
        requires
            self.wf(),
        ensures
            texts(r@) == self@.current(),
    {
        prefix(&self.trie, self.current_position())
    }

    /// Finds the sub-packages and the rules of the package shown.
    pub fn refresh_children(&mut self)
        requires
            old(self).wf(),
        ensures
            final(self).wf(),
            final(self).trie == old(self).trie,
            final(self).positions@ == old(self).positions@,
            final(self)@ == old(self)@.refreshed(),
            final(self)@.is_listed(),
    {
        let position = self.current_position();
        let path = prefix(&self.trie, position);
        let depth: usize = path.len();
        let ghost packages = self@.packages;
        let ghost here = self@.current();

        let mut children: Vec<String> = Vec::new();
        let found = predictive_search(&self.trie, &path);
        for k in 0..found.len()
            invariant
                depth == here.len(),
                is_sorted(texts(children@)),
                forall|label: Text| #[trigger]
                    texts(children@).contains(label) <==> exists|j: int|
                        0 <= j < k && #[trigger] goes_on(found@, j, depth as int, label),
        {
            let ghost before = texts(children@);
            let key = &found[k].0;
            if key.len() > depth {
                insert_sorted(&mut children, &key[depth]);
            }
            assert forall|label: Text| #[trigger] texts(children@).contains(label) implies exists|
                j: int,
            | 0 <= j < k + 1 && #[trigger] goes_on(found@, j, depth as int, label) by {
                if before.contains(label) {
                    let j = choose|j: int|
                        0 <= j < k && #[trigger] goes_on(found@, j, depth as int, label);
                    assert(goes_on(found@, j, depth as int, label));
                } else {
                    assert(goes_on(found@, k as int, depth as int, label));
                }
            }
            assert forall|label: Text|
                (exists|j: int|
                    0 <= j < k + 1 && #[trigger] goes_on(
                        found@,
                        j,
                        depth as int,
                        label,
                    )) implies #[trigger] texts(children@).contains(label) by {
                let j = choose|j: int|
                    0 <= j < k + 1 && #[trigger] goes_on(found@, j, depth as int, label);
                if j < k {
                    assert(before.contains(label));
                }
            }
        }
        proof {
            assert forall|label: Text| #[trigger] texts(children@).contains(label) <==> is_node(
                packages,
                here.push(label),
            ) by {
                let longer = here.push(label);
                if texts(children@).contains(label) {
                    let j = choose|j: int|
                        0 <= j < found@.len() && #[trigger] goes_on(
                            found@,
                            j,
                            depth as int,
                            label,
                        );
                    let key = found_path(found@[j]);
                    assert(here.is_prefix_of(key));
                    assert(longer =~= key.take(depth + 1));
                    assert(longer.is_prefix_of(key));
                    assert(packages.dom().contains(key));
                }
                if is_node(packages, longer) {
                    let key = choose|key: Path| #[trigger]
                        packages.dom().contains(key) && longer.is_prefix_of(key);
                    assert(longer == key.take(longer.len() as int));
                    assert(here =~= longer.take(here.len() as int));
                    assert(here =~= key.take(here.len() as int));
                    assert(here.is_prefix_of(key));
                    assert(key[depth as int] == longer[depth as int]);
                    let j = choose|j: int|
                        0 <= j < found@.len() && #[trigger] found_path(found@[j]) == key;
                    assert(goes_on(found@, j, depth as int, label));
                }
            }
            listing_unique(texts(children@), packages, here);
        }
        let rules = match value(&self.trie, position) {
            Some(rules) => rules.clone(),
            None => Vec::new(),
        };
        assert(rule_views(rules@) =~= package_rules(packages, here));
        self.children = children;
        self.rules = rules;
        assert(self@.stack =~= old(self)@.stack);
    }

    /// The first place in a workspace: its root.
    pub fn new(trie: PackageTrie, workspace_dir: PathBuf) -> (r: Self)
        ensures
            r.wf(),
            r.trie == trie,
            r@.stack == seq![root_path(trie_entries(trie))],
            r@.workspace_dir == workspace_dir,
            r@ == r@.refreshed(),
            r@.is_listed(),
    {
        let mut app = AppState {
            trie,
            positions: Vec::new(),
            children: Vec::new(),
            rules: Vec::new(),
            workspace_dir,
        };
        let root = app.root_position();
        app.positions.push(root);
        assert(app@.stack =~= seq![root_path(trie_entries(trie))]);
        app.refresh_children();
        app
    }

    /// Goes back to the package from which the one shown was entered.
    pub fn go_up(&mut self)
        requires
            old(self).wf(),
        ensures
            final(self).wf(),
            final(self).trie == old(self).trie,
            final(self)@ == old(self)@.above(),
            old(self)@.stack.len() > 1 || old(self)@.is_listed() ==> final(self)@.is_listed(),
    {
        if self.positions.len() > 1 {
            let ghost before = self@;
            self.positions.pop();
            assert(self@.stack =~= before.stack.drop_last());
            self.refresh_children();
        }
    }

    /// Enters the sub-package at the given index.
    pub fn enter_selected_package(&mut self, selected_package: usize)
        requires
            old(self).wf(),
        ensures
            final(self).wf(),
            final(self).trie == old(self).trie,
            final(self)@ == old(self)@.below(selected_package as int),
            selected_package < old(self)@.children.len() || old(self)@.is_listed()
                ==> final(self)@.is_listed(),
    {
        if selected_package < self.children.len() {
            let ghost before = self@;
            let position = query(
                &self.trie,
                self.current_position(),
                &self.children[selected_package],
            );
            self.positions.push(position);
            assert(self@.stack =~= before.stack.push(
                before.below_path(before.children[selected_package as int]),
            ));
            self.refresh_children();
        }
    }

    /// The path of the package shown, as labels spell it.
    pub fn current_package(&self) -> (r: String)
        requires
            self.wf(),
            self@.current().len() > 0,
        ensures
            r@ == self@.package(),
    {
        let path = self.current_prefix();
        assert(texts(path@).len() == path@.len());
        join_from(&path, 1, "/")
    }

    /// The queries about the rule at the given index, if there is one.
    pub fn spawn_rule_detail(&self, selected_rule: usize) -> (r: Option<DetailQueries>)
        requires
            self.wf(),
            selected_rule < self.rules@.len() ==> self@.current().len() > 0,
        ensures
            match r {
                Some(queries) => selected_rule < self.rules@.len() && queries@ == detail_queries(
                    self.workspace_dir,
                    target_text(self@.package(), self@.rules[selected_rule as int].name),
                ),
                None => selected_rule >= self.rules@.len(),
            },
    {
        if selected_rule < self.rules.len() {
            let package = self.current_package();
            Some(
                bazel::spawn_rule_detail_queries(
                    self.workspace_dir.clone(),
                    package,
                    self.rules[selected_rule].name.clone(),
                ),
            )
        } else {
            None
        }
    }

    /// The build tool with a command for a rule of the package shown, and the
    /// rule's label.
    pub fn spawn_bzl_command(&self, command: BzlCommand, rule: &Rule) -> (r: (Invocation, String))
        requires
            self.wf(),
            self@.current().len() > 0,
        ensures
            r.1@ == target_text(self@.package(), rule@.name),
            r.0@ == bzl(self.workspace_dir, seq![command.arg_text(), r.1@]),
    {
        let package = self.current_package();
        let label = target(package.as_str(), rule.name.as_str());
        let invocation = bazel::spawn_bzl_command(
            self.workspace_dir.clone(),
            command,
            label.clone(),
        );
        (invocation, label)
    }
}

} // verus!
