//! Where moving about in a workspace leads, and what is shown at each place.

use vstd::prelude::*;

use crate::app::{AppState, AppView, is_listing, root_path};
use crate::bazel::{RuleView, listed_packages, package_path, rule_views};
use crate::laws::listing::places_lie_on_the_way_to_packages;
use crate::laws::{loaded_workspace_has_listings, path_spells_package};
use crate::text::{Text, joined, text_less, texts};
use crate::trie::{Packages, Path, is_node, position_path, trie_entries};

verus! {

/// What is said of the state is said of what it holds: the packages of its trie, the paths of
/// its positions, its sub-packages, its rules and its directory.
pub proof fn state_is_what_it_holds(app: AppState, i: int)
    ensures
        app@.packages == trie_entries(app.trie),
        app@.stack.len() == app.positions@.len(),
        0 <= i < app.positions@.len() && app.wf() ==> position_path(app.trie, app.positions@[i])
            == Some(app@.stack[i]),
        app@.children == texts(app.children@),
        app@.rules == rule_views(app.rules@),
        app@.workspace_dir == app.workspace_dir,
{
}

/// The way starts at the empty component that every package's path starts with. Only if no
/// package's path does so is it above that.
pub proof fn way_starts_at_the_root(packages: Packages, path: Path)
    ensures
        packages.dom().contains(path) && path.len() > 0 && path[0] == Seq::<char>::empty()
            ==> root_path(packages) == seq![Seq::<char>::empty()],
        root_path(packages) == seq![Seq::<char>::empty()] || root_path(packages) == Seq::<
            Text,
        >::empty(),
        root_path(packages) == seq![Seq::<char>::empty()] ==> exists|key: Path| #[trigger]
            packages.dom().contains(key) && key.len() > 0 && key[0] == Seq::<char>::empty(),
{
    let root = seq![Seq::<char>::empty()];
    places_lie_on_the_way_to_packages(packages, root);
    if packages.dom().contains(path) && path.len() > 0 && path[0] == Seq::<char>::empty() {
        assert(path.take(1) =~= root);
    }
    assert(root.len() == 1);
    if root_path(packages) == root {
        assert(is_node(packages, root)) by {
            assert(Seq::<Text>::empty().len() == 0);
        }
        let key = choose|key: Path| #[trigger]
            packages.dom().contains(key) && root.len() <= key.len() && key.take(root.len() as int)
                == root;
        assert(key[0] == key.take(1)[0]);
    }
}

/// The package shown is the last one on the way.
pub proof fn last_place_is_shown(app: AppView)
    ensures
        app.stack.len() > 0 ==> app.current() == app.stack[app.stack.len() - 1],
        app.stack.len() == 0 ==> app.current() == root_path(app.packages),
{
}

/// A list of sub-packages has just the components by which paths of packages go on below the
/// place, and each of them once, in the order of their characters.
pub proof fn listing_has_what_goes_on_below(
    children: Seq<Text>,
    packages: Packages,
    path: Path,
    label: Text,
    i: int,
    j: int,
)
    requires
        is_listing(children, packages, path),
    ensures
        children.contains(label) <==> exists|key: Path| #[trigger]
            packages.dom().contains(key) && key.len() > path.len() && key.take(path.len() as int)
                == path && key[path.len() as int] == label,
        0 <= i < j < children.len() ==> text_less(children[i], children[j]) && children[i]
            != children[j],
{
    let longer = path.push(label);
    assert(children.contains(label) <==> is_node(packages, longer));
    places_lie_on_the_way_to_packages(packages, longer);
    if children.contains(label) {
        let key = choose|key: Path| #[trigger]
            packages.dom().contains(key) && longer.len() <= key.len() && key.take(
                longer.len() as int,
            ) == longer;
        assert(key.take(path.len() as int) =~= longer.take(path.len() as int));
        assert(longer.take(path.len() as int) =~= path);
        assert(key[path.len() as int] == key.take(longer.len() as int)[path.len() as int]);
    }
    if exists|key: Path| #[trigger]
        packages.dom().contains(key) && key.len() > path.len() && key.take(path.len() as int)
            == path && key[path.len() as int] == label {
        let key = choose|key: Path| #[trigger]
            packages.dom().contains(key) && key.len() > path.len() && key.take(path.len() as int)
                == path && key[path.len() as int] == label;
        assert(key.take(longer.len() as int) =~= key.take(path.len() as int).push(
            key[path.len() as int],
        ));
    }
    if 0 <= i < j < children.len() {
        crate::text::text_less_irreflexive(children[i]);
    }
}

/// At a place of a loaded workspace, what is shown are the components by which packages go on
/// below it, and the rules that the listing has for it.
pub proof fn place_shows_its_packages_and_rules(app: AppView, listing: Text, label: Text)
    requires
        app.packages == listed_packages(listing),
    ensures
        app.refreshed().children.contains(label) <==> exists|key: Path| #[trigger]
            app.packages.dom().contains(key) && key.len() > app.current().len() && key.take(
                app.current().len() as int,
            ) == app.current() && key[app.current().len() as int] == label,
        app.packages.dom().contains(app.current()) ==> app.refreshed().rules
            == app.packages[app.current()],
        !app.packages.dom().contains(app.current()) ==> app.refreshed().rules == Seq::<
            RuleView,
        >::empty(),
        app.refreshed().is_listed(),
        app.refreshed().packages == app.packages,
        app.refreshed().stack == app.stack,
        app.refreshed().workspace_dir == app.workspace_dir,
{
    loaded_workspace_has_listings(listing, app.current());
    listing_has_what_goes_on_below(
        app.refreshed().children,
        app.packages,
        app.current(),
        label,
        0,
        0,
    );
}

/// Going back takes the last place off the way, unless it is the first, and changes nothing
/// of the workspace.
pub proof fn going_up_takes_the_last_place_off(app: AppView)
    ensures
        app.stack.len() > 1 ==> app.above().stack == app.stack.take(app.stack.len() - 1),
        app.stack.len() > 1 ==> app.above().current() == app.stack[app.stack.len() - 2],
        app.stack.len() <= 1 ==> app.above() == app,
        app.above().packages == app.packages,
        app.above().workspace_dir == app.workspace_dir,
{
    if app.stack.len() > 1 {
        assert(app.above().stack =~= app.stack.take(app.stack.len() - 1));
    }
}

/// Entering a sub-package that is listed puts its place on the way: one component further,
/// the one at the index given. An index past the end leads nowhere.
pub proof fn entering_goes_one_component_further(app: AppView, i: int)
    requires
        app.is_listed(),
    ensures
        0 <= i < app.children.len() ==> app.below(i).stack == app.stack.push(
            app.current().push(app.children[i]),
        ),
        0 <= i < app.children.len() ==> app.below(i).current() == app.current().push(
            app.children[i],
        ),
        !(0 <= i < app.children.len()) ==> app.below(i) == app,
        app.below(i).packages == app.packages,
        app.below(i).workspace_dir == app.workspace_dir,
{
    if 0 <= i < app.children.len() {
        assert(app.children.contains(app.children[i]));
        assert(app.below(i).stack =~= app.stack.push(app.current().push(app.children[i])));
    }
}

/// A sub-package that is no longer there is not entered: the way goes on, but stays where it
/// was.
pub proof fn what_is_gone_is_not_entered(app: AppView, i: int)
    requires
        0 <= i < app.children.len(),
        !is_node(app.packages, app.current().push(app.children[i])),
    ensures
        app.below(i).stack == app.stack.push(app.current()),
        app.below(i).current() == app.current(),
{
    assert(app.below(i).stack =~= app.stack.push(app.current()));
}

/// At the place of a package, the package is spelled as the listing spells it.
pub proof fn place_is_spelled_as_its_package(app: AppView, package: Text)
    ensures
        app.current() == package_path(package) ==> app.package() == package,
        app.package() == joined(app.current().skip(1), seq!['/']),
{
    path_spells_package(package);
    reveal_strlit("/");
    assert("/"@ =~= seq!['/']);
}

/// Below a package, the sub-package is spelled with a slash between them.
pub proof fn sub_package_is_spelled_below_its_package(app: AppView, i: int)
    requires
        app.is_listed(),
        app.current().len() > 0,
        0 <= i < app.children.len(),
    ensures
        app.current().len() == 1 ==> app.below(i).package() == app.children[i],
        app.current().len() > 1 ==> app.below(i).package() == app.package() + seq!['/']
            + app.children[i],
{
    entering_goes_one_component_further(app, i);
    reveal_strlit("/");
    assert("/"@ =~= seq!['/']);
    let here = app.current().skip(1);
    assert(app.below(i).current().skip(1) =~= here.push(app.children[i]));
    if app.current().len() == 1 {
        assert(here.push(app.children[i]) =~= seq![app.children[i]]);
    } else {
        assert(here.push(app.children[i]).drop_last() =~= here);
    }
}

} // verus!
