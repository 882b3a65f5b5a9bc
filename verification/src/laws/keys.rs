//! What each key does, with and without a window on top.

use vstd::prelude::*;

use crate::app::AppView;
use crate::bazel::{DetailUpdateView, InvocationView, RunUpdateView};
use crate::key::{KeyCode, KeyEvent};
use crate::list_view::{Move, key_move};
use crate::modal::{DetailModel, RunModel};
use crate::scene::ViewId;
use crate::text::Text;
use crate::ui::{
    Action, ActionView, MainModel, MainView, Modal, ModalModel, ModalUpdate, ModalUpdateView,
    UpdateSource, is_rooted, modal_views, packages_list, rules_list,
};

verus! {

/// What is said of windows is said of each in its place.
pub proof fn windows_are_in_place(modals: Seq<Modal>, i: int)
    ensures
        modal_views(modals).len() == modals.len(),
        0 <= i < modals.len() ==> modal_views(modals)[i] == match modals[i] {
            Modal::RuleDetail(modal) => ModalModel::RuleDetail(modal@),
            Modal::RunOutput(modal) => ModalModel::RunOutput(modal@),
        },
{
}

/// What is said of what is to be done, and of news, is said of what they hold.
pub proof fn actions_are_what_they_hold(action: Action, update: ModalUpdate)
    ensures
        action@ == match action {
            Action::Nothing => ActionView::Nothing,
            Action::QueryRule(queries) => ActionView::QueryRule(queries@),
            Action::RunCommand(invocation) => ActionView::RunCommand(invocation@),
            Action::CloseModal => ActionView::CloseModal,
        },
        update@ == match update {
            ModalUpdate::Detail(update) => ModalUpdateView::Detail(update@),
            ModalUpdate::Run(update) => ModalUpdateView::Run(update@),
        },
{
}

/// What is said of the screen is said of what it holds.
pub proof fn screen_is_what_it_holds(view: MainView)
    ensures
        view@.app == (*old(view.app))@,
        view@.packages == view.packages_view@,
        view@.rules == view.rules_view@,
        view@.active == view.active_view_id,
        view@.modal_open == view.modal_open,
        view@.modals == modal_views(view.modals@),
{
}

/// The screen starts with the lists of the first place, the focus on the sub-packages, and no
/// window.
pub proof fn screen_starts_with_the_lists(app: AppView)
    ensures
        MainModel::opened(app).app == app,
        MainModel::opened(app).packages == packages_list(app),
        MainModel::opened(app).rules == rules_list(app),
        MainModel::opened(app).active == ViewId::Packages,
        !MainModel::opened(app).modal_open,
        MainModel::opened(app).modals.len() == 0,
        MainModel::opened(app).focused(ViewId::Packages),
{
}

/// The first and the second list get the focus by their number and by `h` and `l`, and the
/// other list by Tab. Nothing else changes.
pub proof fn keys_switch_lists(view: MainModel, key: KeyEvent)
    requires
        view.modals.len() == 0,
    ensures
        ({
            let step = view.after_key(key);
            let first = key.code == KeyCode::Char('1') || key.code == KeyCode::Char('h');
            let second = key.code == KeyCode::Char('2') || key.code == KeyCode::Char('l');
            &&& first ==> step.view.active == ViewId::Packages
            &&& second ==> step.view.active == ViewId::Rules
            &&& key.code == KeyCode::Tab ==> step.view.active != view.active
            &&& first || second || key.code == KeyCode::Tab ==> step.handled && step.action
                == ActionView::Nothing && step.view == (MainModel {
                active: step.view.active,
                ..view
            })
        }),
{
}

/// A key that moves, moves the selection of the list with the focus, and changes nothing else.
pub proof fn keys_move_the_selection(view: MainModel, key: KeyEvent, by: Move)
    requires
        view.modals.len() == 0,
        key_move(key) == Some(by),
    ensures
        view.after_key(key).handled,
        view.after_key(key).action == ActionView::Nothing,
        view.active == ViewId::Packages ==> view.after_key(key).view == (MainModel {
            packages: view.packages.moved(by),
            ..view
        }),
        view.active == ViewId::Rules ==> view.after_key(key).view == (MainModel {
            rules: view.rules.moved(by),
            ..view
        }),
{
}

/// Enter on the list of sub-packages enters the one selected, and `u` goes back. The lists are
/// then those of the place come to, with their first items selected, and the focus is on the
/// sub-packages if there are any.
pub proof fn keys_move_about(view: MainModel, key: KeyEvent)
    requires
        view.modals.len() == 0,
        view.active == ViewId::Packages,
    ensures
        ({
            let step = view.after_key(key);
            let enters = key.code == KeyCode::Enter;
            let leaves = key.code == KeyCode::Char('u') && !key.control;
            &&& enters ==> step.view.app == view.app.below(
                view.packages.selection.index() as int,
            )
            &&& leaves ==> step.view.app == view.app.above()
            &&& enters || leaves ==> {
                &&& step.handled
                &&& step.action == ActionView::Nothing
                &&& step.view.packages == packages_list(step.view.app)
                &&& step.view.rules == rules_list(step.view.app)
                &&& step.view.active == (if step.view.app.children.len() > 0 {
                    ViewId::Packages
                } else {
                    ViewId::Rules
                })
                &&& step.view.modals == view.modals
                &&& step.view.modal_open == view.modal_open
            }
        }),
{
}

/// Enter on the list of rules opens a window for the rule selected, in which nothing is known
/// of it yet, and asks about it: about its label, in the workspace. If there is no such rule
/// nothing happens.
pub proof fn enter_asks_about_the_rule(view: MainModel, key: KeyEvent, i: int)
    requires
        view.modals.len() == 0,
        view.active == ViewId::Rules,
        key.code == KeyCode::Enter,
        i == view.rules.selection.index(),
    ensures
        view.after_key(key).handled,
        i < view.app.rules.len() ==> {
            let step = view.after_key(key);
            let target = "//"@ + view.app.package() + ":"@ + view.app.rules[i].name;
            &&& step.view.modals.len() == 1
            &&& step.view.modals[0] is RuleDetail
            &&& (step.view.modals[0]->RuleDetail_0).text is Loading
            &&& (step.view.modals[0]->RuleDetail_0).is_runnable is None
            &&& (step.view.modals[0]->RuleDetail_0).is_testable is None
            &&& (step.view.modals[0]->RuleDetail_0).wf()
            &&& step.view.modal_open
            &&& step.view == (MainModel {
                modals: step.view.modals,
                modal_open: true,
                ..view
            })
            &&& step.action is QueryRule
            &&& (step.action->QueryRule_0).text == (InvocationView {
                program: "bzl"@,
                args: seq!["query"@, target, "--output"@, "build"@],
                workspace_dir: view.app.workspace_dir,
            })
            &&& (step.action->QueryRule_0).runnable == (InvocationView {
                program: "bzl"@,
                args: seq![
                    "cquery"@,
                    target,
                    "--output=starlark"@,
                    "--starlark:expr=providers(target)['DefaultInfo'].files_to_run.executable != None"@,
                ],
                workspace_dir: view.app.workspace_dir,
            })
            &&& (step.action->QueryRule_0).testable == (InvocationView {
                program: "bzl"@,
                args: seq!["query"@, "tests("@ + target + ")"@],
                workspace_dir: view.app.workspace_dir,
            })
        },
        i >= view.app.rules.len() ==> view.after_key(key).view == view && view.after_key(key).action
            == ActionView::Nothing,
{
}

/// Without a window, all keys but those that switch, move, enter and go back mean nothing.
pub proof fn other_keys_mean_nothing(view: MainModel, key: KeyEvent)
    requires
        view.modals.len() == 0,
    ensures
        view.after_key(key).handled <==> {
            ||| key.code == KeyCode::Char('1')
            ||| key.code == KeyCode::Char('2')
            ||| key.code == KeyCode::Char('h')
            ||| key.code == KeyCode::Char('l')
            ||| key.code == KeyCode::Tab
            ||| key.code == KeyCode::Enter
            ||| key.code == KeyCode::Up
            ||| key.code == KeyCode::Down
            ||| key.code == KeyCode::PageUp
            ||| key.code == KeyCode::PageDown
            ||| key.code == KeyCode::Char('j')
            ||| key.code == KeyCode::Char('k')
            ||| key.code == KeyCode::Char('d') && key.control
            ||| key.code == KeyCode::Char('u') && (key.control || view.active == ViewId::Packages)
        },
{
}

/// What a command for the rule selected comes to: the build tool is run in the workspace with
/// the command and the rule's label, and a window with both in its title is opened for its
/// output, on top of the others. If there is no such rule nothing happens.
pub open spec fn runs(view: MainModel, key: KeyEvent, arg: Text, label: Text) -> bool {
    let step = view.after_key(key);
    let i = view.rules.selection.index() as int;
    let target = "//"@ + view.app.package() + ":"@ + view.app.rules[i].name;
    &&& step.handled
    &&& i < view.app.rules.len() ==> {
        &&& step.action == ActionView::RunCommand(
            InvocationView {
                program: "bzl"@,
                args: seq![arg, target],
                workspace_dir: view.app.workspace_dir,
            },
        )
        &&& step.view.modals.len() == view.modals.len() + 1
        &&& step.view.modals.take(view.modals.len() as int) == view.modals
        &&& step.view.modals.last() is RunOutput
        &&& (step.view.modals.last()->RunOutput_0).title == label + " "@ + target
        &&& (step.view.modals.last()->RunOutput_0).lines.len() == 0
        &&& (step.view.modals.last()->RunOutput_0).status is Running
        &&& (step.view.modals.last()->RunOutput_0).follow_tail
        &&& (step.view.modals.last()->RunOutput_0).scroll == 0
        &&& (step.view.modals.last()->RunOutput_0).bindings == seq![
            ("↑↓/jk/C-u/C-d/PgUp/PgDn"@, "Scroll"@),
            ("G"@, "Tail"@),
            ("q"@, "Close"@),
        ]
        &&& step.view == (MainModel { modals: step.view.modals, modal_open: true, ..view })
    }
    &&& i >= view.app.rules.len() ==> step.view == view && step.action == ActionView::Nothing
}

/// With the window of a rule on top, `b` builds the rule, `r` runs it if it is known that it
/// can be run, and `t` tests it if it is known that it can be tested, whatever else is known.
pub proof fn keys_build_run_and_test(view: MainModel, detail: DetailModel, key: KeyEvent)
    requires
        view.modals.len() > 0,
        view.modals.last() == ModalModel::RuleDetail(detail),
    ensures
        key.code == KeyCode::Char('b') ==> runs(view, key, "build"@, "Build"@),
        key.code == KeyCode::Char('r') && detail.is_runnable == Some(true) ==> runs(
            view,
            key,
            "run"@,
            "Run"@,
        ),
        key.code == KeyCode::Char('t') && detail.is_testable == Some(true) ==> runs(
            view,
            key,
            "test"@,
            "Test"@,
        ),
        key.code == KeyCode::Char('r') && detail.is_runnable != Some(true) ==> !view.after_key(
            key,
        ).handled,
        key.code == KeyCode::Char('t') && detail.is_testable != Some(true) ==> !view.after_key(
            key,
        ).handled,
        view.after_key(key).handled ==> key.code == KeyCode::Char('b') || key.code == KeyCode::Char(
            'r',
        ) || key.code == KeyCode::Char('t') || key.code == KeyCode::Char('q'),
{
    let after = view.after_key(key).view.modals;
    assert(after.len() == view.modals.len() + 1 ==> after.take(view.modals.len() as int)
        =~= view.modals);
}

/// `q` closes the window on top and no other. After the last one the focus is on the rules.
pub proof fn quit_key_closes_the_window_on_top(view: MainModel, key: KeyEvent)
    requires
        view.modals.len() > 0,
        key.code == KeyCode::Char('q'),
    ensures
        ({
            let step = view.after_key(key);
            &&& step.handled
            &&& step.action == ActionView::CloseModal
            &&& step.view.modals == view.modals.take(view.modals.len() - 1)
            &&& step.view.modal_open == (view.modals.len() > 1)
            &&& step.view.active == (if view.modals.len() == 1 {
                ViewId::Rules
            } else {
                view.active
            })
            &&& step.view == (MainModel {
                modals: step.view.modals,
                modal_open: step.view.modal_open,
                active: step.view.active,
                ..view
            })
        }),
{
    assert(view.modals.drop_last() =~= view.modals.take(view.modals.len() - 1));
}

/// With the window of a command on top, all keys but `q` go to that window alone.
pub proof fn keys_go_to_the_output_on_top(view: MainModel, output: RunModel, key: KeyEvent)
    requires
        view.modals.len() > 0,
        view.modals.last() == ModalModel::RunOutput(output),
        key.code != KeyCode::Char('q'),
    ensures
        ({
            let step = view.after_key(key);
            let n = view.modals.len() - 1;
            &&& step.handled == output.after_key(key) is Some
            &&& step.action == ActionView::Nothing
            &&& step.view == (MainModel { modals: step.view.modals, ..view })
            &&& step.view.modals.len() == view.modals.len()
            &&& step.view.modals.take(n) == view.modals.take(n)
            &&& step.handled ==> step.view.modals[n] == ModalModel::RunOutput(
                output.after_key(key)->0,
            )
            &&& !step.handled ==> step.view == view
        }),
{
    let n = view.modals.len() - 1;
    assert(view.after_key(key).view.modals.take(n) =~= view.modals.take(n));
}

/// News are taken by the window on top if they are of its kind. All else stays.
pub proof fn news_are_taken_by_the_window_on_top(
    view: MainModel,
    detail: DetailUpdateView,
    run: RunUpdateView,
)
    ensures
        view.modals.len() == 0 ==> view.updated(ModalUpdateView::Detail(detail)) == view
            && view.updated(ModalUpdateView::Run(run)) == view,
        view.modals.len() > 0 ==> {
            let n = view.modals.len() - 1;
            let told = view.updated(ModalUpdateView::Detail(detail));
            let ran = view.updated(ModalUpdateView::Run(run));
            match view.modals[n] {
                ModalModel::RuleDetail(window) => {
                    &&& told.modals == view.modals.update(
                        n,
                        ModalModel::RuleDetail(window.updated(detail)),
                    )
                    &&& told == (MainModel { modals: told.modals, ..view })
                    &&& ran == view
                },
                ModalModel::RunOutput(window) => {
                    &&& ran.modals == view.modals.update(
                        n,
                        ModalModel::RunOutput(window.updated(run)),
                    )
                    &&& ran == (MainModel { modals: ran.modals, ..view })
                    &&& told == view
                },
            }
        },
{
    if view.modals.len() > 0 {
        let n = view.modals.len() - 1;
        let told = view.updated(ModalUpdateView::Detail(detail));
        let ran = view.updated(ModalUpdateView::Run(run));
        match view.modals[n] {
            ModalModel::RuleDetail(window) => {
                assert(told.modals =~= view.modals.update(
                    n,
                    ModalModel::RuleDetail(window.updated(detail)),
                ));
            },
            ModalModel::RunOutput(window) => {
                assert(ran.modals =~= view.modals.update(
                    n,
                    ModalModel::RunOutput(window.updated(run)),
                ));
            },
        }
    }
}

/// News are awaited for the window on top, from its queries or from its command.
pub proof fn news_are_awaited_for_the_window_on_top(view: MainModel)
    ensures
        view.update_source() is None <==> view.modals.len() == 0,
        view.modals.len() > 0 ==> (view.update_source() == Some(UpdateSource::Detail)
            <==> view.modals[view.modals.len() - 1] is RuleDetail),
        view.modals.len() > 0 ==> (view.update_source() == Some(UpdateSource::Run)
            <==> view.modals[view.modals.len() - 1] is RunOutput),
{
}

/// The focus is on the active list while no window is open.
pub proof fn focus_is_on_the_active_list(view: MainModel, list: ViewId)
    ensures
        view.focused(list) <==> view.active == list && !view.modal_open,
{
}

/// The only keys that cannot be taken are page downs, without a window, in an active list
/// without items or where there is no number that far.
pub proof fn only_page_downs_are_refused(view: MainModel, key: KeyEvent)
    ensures
        ({
            let page_down = key.code == KeyCode::PageDown || (key.code == KeyCode::Char('d')
                && key.control);
            let list = match view.active {
                ViewId::Packages => view.packages,
                ViewId::Rules => view.rules,
            };
            view.accepts(key) <==> !(view.modals.len() == 0 && page_down && (list.items.len() == 0
                || list.selection.index() + 20 > usize::MAX))
        }),
{
}

/// A screen in order shows the lists of its place, with any item selected, has the flag of
/// open windows right, and shows the bindings of what is known of rules. Its place and all
/// those before it lie in the workspace.
pub proof fn screen_in_order_shows_its_place(view: MainModel, i: int, k: int, j: int)
    requires
        view.wf(),
    ensures
        view.packages.items == packages_list(view.app).items,
        view.packages.header == packages_list(view.app).header,
        view.packages.title == packages_list(view.app).title,
        view.packages.bindings == packages_list(view.app).bindings,
        view.packages.view == ViewId::Packages,
        view.rules.items == rules_list(view.app).items,
        view.rules.header is None,
        view.rules.title == rules_list(view.app).title,
        view.rules.bindings == rules_list(view.app).bindings,
        view.rules.view == ViewId::Rules,
        0 <= i < view.app.children.len() ==> view.packages.items[i][1].text == view.app.children[i],
        view.packages.items.len() == view.app.children.len(),
        0 <= k < view.app.rules.len() ==> view.rules.items[k][1].text == " "@
            + view.app.rules[k].name,
        view.rules.items.len() == view.app.rules.len(),
        view.modal_open <==> view.modals.len() > 0,
        0 <= j < view.modals.len() ==> (view.modals[j] matches ModalModel::RuleDetail(detail)
            ==> detail.wf()),
        is_rooted(view.app) && view.app.current().len() > 0,
{
}

} // verus!
