//! The packages of a workspace, kept in a trie of the `trie_rs` crate.
//!
//! What the trie holds and where a search stands in it are named here, and each
//! method of the crate that the library calls has a wrapper that speaks of those
//! names.

use trie_rs::inc_search::{IncSearch, Position};
use trie_rs::map::{Trie, TrieBuilder};
use vstd::prelude::*;

use crate::bazel::{Rule, RuleView, rule_views};
use crate::text::{Text, texts};

verus! {

/// `trie_rs::map::Trie`, from sequences of labels to values.
#[verifier::external_type_specification]
#[verifier::external_body]
#[verifier::reject_recursive_types(Label)]
#[verifier::reject_recursive_types(Value)]
pub struct ExTrie<Label, Value>(trie_rs::map::Trie<Label, Value>);

/// `trie_rs::map::TrieBuilder`, which collects the entries of a trie.
#[verifier::external_type_specification]
#[verifier::external_body]
#[verifier::reject_recursive_types(Label)]
#[verifier::reject_recursive_types(Value)]
pub struct ExTrieBuilder<Label, Value>(trie_rs::map::TrieBuilder<Label, Value>);

/// `trie_rs::inc_search::Position`, the node at which a search stands.
#[verifier::external_type_specification]
#[verifier::external_body]
pub struct ExPosition(trie_rs::inc_search::Position);

/// The packages of a workspace: under the path of each package, its rules.
pub type PackageTrie = Trie<String, Vec<Rule>>;

/// The packages that are to go into a trie.
pub type PackageTrieBuilder = TrieBuilder<String, Vec<Rule>>;

/// The path of a package: its components from the root on.
pub type Path = Seq<Text>;

/// The rules of each package, under the package's path.
pub type Packages = Map<Path, Seq<RuleView>>;

/// The entries of a trie.
pub uninterp spec fn trie_entries(trie: PackageTrie) -> Map<Seq<Seq<char>>, Seq<RuleView>>;

/// The entries collected so far.
pub uninterp spec fn builder_entries(builder: PackageTrieBuilder) -> Map<
    Seq<Seq<char>>,
    Seq<RuleView>,
>;

/// The labels from the root of `trie` to the node at `position`, if `trie` has
/// such a node.
pub uninterp spec fn position_path(trie: PackageTrie, position: Position) -> Option<
    Seq<Seq<char>>,
>;

/// The root is a node, and so is every path that a package's path starts with.
pub open spec fn is_node(packages: Packages, path: Path) -> bool {
    path.len() == 0 || exists|key: Path| #[trigger]
        packages.dom().contains(key) && path.is_prefix_of(key)
}

/// `TrieBuilder::new`: a builder without entries.
#[verifier::external_body]
pub(crate) fn new_builder() -> (r: PackageTrieBuilder)
    ensures
        builder_entries(r) == Packages::empty(),
{
    TrieBuilder::new()
}

/// `TrieBuilder::push`: the entry under `path` is `rules` from now on, and the
/// others stay. The method panics on a path without components.
#[verifier::external_body]
pub(crate) fn push_entry(builder: &mut PackageTrieBuilder, path: &Vec<String>, rules: Vec<Rule>)
    requires
        path@.len() > 0,
    ensures
        builder_entries(*final(builder)) == builder_entries(*old(builder)).insert(
            texts(path@),
            rule_views(rules@),
        ),
{
    builder.push(path, rules);
}

/// `TrieBuilder::build`: the trie has the entries that were collected.
#[verifier::external_body]
pub(crate) fn build_trie(builder: PackageTrieBuilder) -> (r: PackageTrie)
    ensures
        trie_entries(r) == builder_entries(builder),
{
    builder.build()
}

/// `Trie::inc_search`: a new search stands at the root.
#[verifier::external_body]
pub(crate) fn start(trie: &PackageTrie) -> (r: Position)
    ensures
        position_path(*trie, r) == Some(Seq::<Seq<char>>::empty()),
{
    Position::from(trie.inc_search())
}

/// `IncSearch::query`: a search that stands at `position` goes to the child with
/// the given label if there is one, and stays where it is if there is none.
#[verifier::external_body]
pub(crate) fn query(trie: &PackageTrie, position: Position, label: &String) -> (r: Position)
    requires
        position_path(*trie, position) is Some,
    ensures
        is_node(trie_entries(*trie), position_path(*trie, position)->0.push(label@))
            ==> position_path(*trie, r) == Some(position_path(*trie, position)->0.push(label@)),
        !is_node(trie_entries(*trie), position_path(*trie, position)->0.push(label@)) ==> r
            == position,
{
    let mut search = IncSearch::resume(trie, position);
    search.query(label);
    Position::from(search)
}

/// `IncSearch::prefix`: the labels from the root to the node where a search
/// stands.
#[verifier::external_body]
pub(crate) fn prefix(trie: &PackageTrie, position: Position) -> (r: Vec<String>)
    requires
        position_path(*trie, position) is Some,
    ensures
        Some(texts(r@)) == position_path(*trie, position),
{
    IncSearch::resume(trie, position).prefix()
}

/// `IncSearch::value`: the entry under the path of the node where a search
/// stands, if there is one.
#[verifier::external_body]
pub(crate) fn value(trie: &PackageTrie, position: Position) -> (r: Option<&Vec<Rule>>)
    requires
        position_path(*trie, position) is Some,
    ensures
        match r {
            Some(rules) => trie_entries(*trie).contains_pair(
                position_path(*trie, position)->0,
                rule_views(rules@),
            ),
            None => !trie_entries(*trie).dom().contains(position_path(*trie, position)->0),
        },
{
    IncSearch::resume(trie, position).value()
}

/// The path of an entry that a search found.
pub open spec fn found_path(found: (Vec<String>, &Vec<Rule>)) -> Path {
    texts(found.0@)
}

/// `Trie::predictive_search`: the entries whose paths start with `prefix`, each
/// of them once. Nothing is claimed of their order.
#[verifier::external_body]
pub(crate) fn predictive_search<'a>(trie: &'a PackageTrie, prefix: &Vec<String>) -> (r: Vec<
    (Vec<String>, &'a Vec<Rule>),
>)
    ensures
        forall|i: int|
            0 <= i < r@.len() ==> texts(prefix@).is_prefix_of(#[trigger] found_path(r@[i]))
                && trie_entries(*trie).contains_pair(found_path(r@[i]), rule_views(r@[i].1@)),
        forall|path: Seq<Seq<char>>| #[trigger]
            trie_entries(*trie).dom().contains(path) && texts(prefix@).is_prefix_of(path)
                ==> exists|i: int| 0 <= i < r@.len() && #[trigger] found_path(r@[i]) == path,
        forall|i: int, j: int|
            0 <= i < j < r@.len() ==> #[trigger] found_path(r@[i]) != #[trigger] found_path(r@[j]),
{
    trie.predictive_search(prefix).collect()
}

} // verus!
