//! The screen: the two lists, the windows over them, and what the keys do.

use vstd::prelude::*;

use crate::app::{AppState, AppView};
use crate::bazel::{
    BzlCommand, DetailQueries, DetailQueriesView, DetailUpdate, DetailUpdateView, Invocation,
    InvocationView, Rule, RuleView, RunUpdate, RunUpdateView, bzl, detail_queries, rule_views,
    target_text,
};
use crate::key::{KeyCode, KeyEvent, KeyEventKind};
use crate::list_view::{
    Binding, ListModel, ListView, binding_views, key_move,
};
use crate::modal::{
    DetailModel, RuleContentModal, RunModel, RunOutputModal, shown_bindings_are_taken,
};
use crate::scene::{
    Alignment, Color, Constraint, Content, ContentView, Direction, Piece, PieceView, Rect, Selection,
    Span, SpanView, ViewId, bold, bold_color_style, bold_colored, bold_style, color_style, colored,
    item_views, lies_within, may_split, piece_views, plain, plain_style, span_views,
    spans_across, split_area,
};
use crate::text::{Text, byte_len, pad, padded, texts};

verus! {

/// A window over the lists.
#[derive(Debug)]
pub enum Modal {
    RuleDetail(RuleContentModal),
    RunOutput(RunOutputModal),
}

/// What a window holds.
pub enum ModalModel {
    RuleDetail(DetailModel),
    RunOutput(RunModel),
}

impl View for Modal {
    type V = ModalModel;

    open spec fn view(&self) -> ModalModel {
        match self {
            Modal::RuleDetail(modal) => ModalModel::RuleDetail(modal@),
            Modal::RunOutput(modal) => ModalModel::RunOutput(modal@),
        }
    }
}

/// What each window holds.
pub open spec fn modal_views(modals: Seq<Modal>) -> Seq<ModalModel> {
    modals.map_values(|modal: Modal| modal@)
}

/// News for the window on top.
#[derive(Debug)]
pub enum ModalUpdate {
    Detail(DetailUpdate),
    Run(RunUpdate),
}

/// What news for a window holds.
pub enum ModalUpdateView {
    Detail(DetailUpdateView),
    Run(RunUpdateView),
}

impl View for ModalUpdate {
    type V = ModalUpdateView;

    open spec fn view(&self) -> ModalUpdateView {
        match self {
            ModalUpdate::Detail(update) => ModalUpdateView::Detail(update@),
            ModalUpdate::Run(update) => ModalUpdateView::Run(update@),
        }
    }
}

/// Where the news for the window on top comes from.
#[derive(Debug, Clone, Copy, PartialEq, Eq, Structural)]
pub enum UpdateSource {
    Detail,
    Run,
}

/// What is to be done after a key. A window was opened if queries or a command are
/// to be started, and their news are for that window; the window on top was closed
/// if its source of news is to be dropped.
#[derive(Debug)]
pub enum Action {
    Nothing,
    QueryRule(DetailQueries),
    RunCommand(Invocation),
    CloseModal,
}

/// What a thing to be done holds.
pub enum ActionView {
    Nothing,
    QueryRule(DetailQueriesView),
    RunCommand(InvocationView),
    CloseModal,
}

impl View for Action {
    type V = ActionView;

    open spec fn view(&self) -> ActionView {
        match self {
            Action::Nothing => ActionView::Nothing,
            Action::QueryRule(queries) => ActionView::QueryRule(queries@),
            Action::RunCommand(invocation) => ActionView::RunCommand(invocation@),
            Action::CloseModal => ActionView::CloseModal,
        }
    }
}

/// What became of a key: whether it meant something, and what is to be done.
#[derive(Debug)]
pub struct KeyOutcome {
    pub handled: bool,
    pub action: Action,
}

/// What an event of a key leads to: another round with something to be done, or
/// the end. A page down in a list that has no item to go to leads nowhere.
#[derive(Debug)]
pub enum LoopStep {
    Continue(Action),
    Quit,
    NoItem,
}

/// The items of the list of sub-packages: the branches of a tree.
pub open spec fn package_items(children: Seq<Text>) -> Seq<Seq<SpanView>> {
    Seq::new(
        children.len(),
        |i: int|
            seq![
                SpanView {
                    text: if i == children.len() - 1 {
                        "└── "@
                    } else {
                        "├── "@
                    },
                    style: color_style(Color::DarkGray),
                },
                SpanView { text: children[i], style: plain_style() },
            ],
    )
}

/// The length of the longest type of the rules, in bytes.
pub open spec fn type_width(rules: Seq<RuleView>) -> usize
    decreases rules.len(),
{
    if rules.len() == 0 {
        0
    } else {
        let before = type_width(rules.drop_last());
        let last = byte_len(rules.last().rule_type);
        if last > before {
            last
        } else {
            before
        }
    }
}

/// The items of the list of rules: the types in a column, and the names.
pub open spec fn rule_items(rules: Seq<RuleView>) -> Seq<Seq<SpanView>> {
    Seq::new(
        rules.len(),
        |i: int|
            seq![
                SpanView {
                    text: padded(rules[i].rule_type, type_width(rules) as nat),
                    style: bold_color_style(Color::Blue),
                },
                SpanView { text: " "@ + rules[i].name, style: plain_style() },
            ],
    )
}

/// The bindings of the list of sub-packages.
pub open spec fn packages_bindings() -> Seq<(Text, Text)> {
    seq![
        ("↑↓/jk/C-u/C-d/PgUp/PgDn"@, "Navigate"@),
        ("Enter"@, "Select"@),
        ("u"@, "Go to Parent"@),
        ("Tab/h/l"@, "Switch View"@),
        ("q"@, "Quit"@),
    ]
}

/// The bindings of the list of rules.
pub open spec fn rules_bindings() -> Seq<(Text, Text)> {
    seq![
        ("↑↓/jk/C-u/C-d/PgUp/PgDn"@, "Navigate"@),
        ("Enter"@, "View Rule"@),
        ("Tab/h/l"@, "Switch View"@),
        ("q"@, "Quit"@),
    ]
}

/// The selection of a list that was just made: its first item.
pub open spec fn first_selected() -> Selection {
    Selection { offset: 0, selected: Some(0usize) }
}

/// The list of the sub-packages of the package shown.
pub open spec fn packages_list(app: AppView) -> ListModel {
    ListModel {
        view: ViewId::Packages,
        title: "1: Packages"@,
        header: Some("//"@ + app.package()),
        items: package_items(app.children),
        selection: first_selected(),
        bindings: packages_bindings(),
    }
}

/// The list of the rules of the package shown.
pub open spec fn rules_list(app: AppView) -> ListModel {
    ListModel {
        view: ViewId::Rules,
        title: "2: Rules"@,
        header: None,
        items: rule_items(app.rules),
        selection: first_selected(),
        bindings: rules_bindings(),
    }
}

/// The workspace that is shown has packages, and the way to the package shown
/// starts at its root.
pub open spec fn is_rooted(app: AppView) -> bool {
    &&& app.current().len() > 0
    &&& forall|i: int| 0 <= i < app.stack.len() ==> (#[trigger] app.stack[i]).len() > 0
}

/// What the screen holds.
pub struct MainModel {
    pub app: AppView,
    pub packages: ListModel,
    pub rules: ListModel,
    pub active: ViewId,
    pub modal_open: bool,
    pub modals: Seq<ModalModel>,
}

/// What a key does to the screen.
pub struct KeyStep {
    pub view: MainModel,
    pub handled: bool,
    pub action: ActionView,
}

impl MainModel {
    /// The screen at the start.
    pub open spec fn opened(app: AppView) -> MainModel {
        MainModel {
            app,
            packages: packages_list(app),
            rules: rules_list(app),
            active: ViewId::Packages,
            modal_open: false,
            modals: Seq::empty(),
        }
    }

    /// The lists are those of the package shown, with any item selected; a window
    /// is open if there is one; and every window that shows a rule has the bindings
    /// of what is known of the rule.
    pub open spec fn wf(self) -> bool {
        &&& is_rooted(self.app)
        &&& self.packages == (ListModel {
            selection: self.packages.selection,
            ..packages_list(self.app)
        })
        &&& self.rules == (ListModel { selection: self.rules.selection, ..rules_list(self.app) })
        &&& self.modal_open == (self.modals.len() > 0)
        &&& forall|i: int|
            0 <= i < self.modals.len() ==> (#[trigger] self.modals[i] matches ModalModel::RuleDetail(
                detail,
            ) ==> detail.wf())
    }

    /// The list that the keys go to when no window is open.
    pub open spec fn active_list(self) -> ListModel {
        match self.active {
            ViewId::Packages => self.packages,
            ViewId::Rules => self.rules,
        }
    }

    /// The list has the focus: the keys go to it.
    pub open spec fn focused(self, view: ViewId) -> bool {
        self.active == view && !self.modal_open
    }

    /// The key can be taken: it is not a page down in a list that has no item to
    /// go to.
    pub open spec fn accepts(self, key: KeyEvent) -> bool {
        self.modals.len() == 0 ==> self.active_list().can_move(key)
    }

    /// The screen after another package came to be shown.
    pub open spec fn showing(self, app: AppView) -> MainModel {
        MainModel {
            app,
            packages: packages_list(app),
            rules: rules_list(app),
            active: if app.children.len() == 0 {
                ViewId::Rules
            } else {
                ViewId::Packages
            },
            ..self
        }
    }

    /// The key meant nothing.
    pub open spec fn unhandled(self) -> KeyStep {
        KeyStep { view: self, handled: false, action: ActionView::Nothing }
    }

    /// The key meant something, and nothing is to be done.
    pub open spec fn handled(self) -> KeyStep {
        KeyStep { view: self, handled: true, action: ActionView::Nothing }
    }

    /// The key opened a window.
    pub open spec fn opening(self, modal: ModalModel, action: ActionView) -> KeyStep {
        KeyStep {
            view: MainModel { modals: self.modals.push(modal), modal_open: true, ..self },
            handled: true,
            action,
        }
    }

    /// The key closed the window on top. Behind the last one is the list of rules.
    pub open spec fn closing(self) -> KeyStep {
        let modals = self.modals.drop_last();
        KeyStep {
            view: MainModel {
                modals,
                modal_open: modals.len() > 0,
                active: if modals.len() == 0 {
                    ViewId::Rules
                } else {
                    self.active
                },
                ..self
            },
            handled: true,
            action: ActionView::CloseModal,
        }
    }

    /// The index of the rule selected.
    pub open spec fn rule_index(self) -> int {
        self.rules.selection.index() as int
    }

    /// The label of the rule selected.
    pub open spec fn rule_target(self) -> Text {
        target_text(self.app.package(), self.app.rules[self.rule_index()].name)
    }

    /// The rule selected, if there is one, is shown in a window of its own.
    pub open spec fn rule_selected(self) -> KeyStep {
        if self.rule_index() < self.app.rules.len() {
            self.opening(
                ModalModel::RuleDetail(DetailModel::opened()),
                ActionView::QueryRule(detail_queries(self.app.workspace_dir, self.rule_target())),
            )
        } else {
            self.handled()
        }
    }

    /// The command is started for the rule selected, if there is one, and its output
    /// is shown in a window of its own.
    pub open spec fn command_started(self, command: BzlCommand) -> KeyStep {
        if self.rule_index() < self.app.rules.len() {
            self.opening(
                ModalModel::RunOutput(
                    RunModel::opened(command.label_text() + " "@ + self.rule_target()),
                ),
                ActionView::RunCommand(
                    bzl(self.app.workspace_dir, seq![command.arg_text(), self.rule_target()]),
                ),
            )
        } else {
            self.handled()
        }
    }

    /// What a key does when a window is open.
    pub open spec fn after_modal_key(self, key: KeyEvent) -> KeyStep {
        match self.modals.last() {
            ModalModel::RuleDetail(detail) => match key.code {
                KeyCode::Char(c) => if c == 'b' {
                    self.command_started(BzlCommand::Build)
                } else if c == 'r' && detail.is_runnable == Some(true) {
                    self.command_started(BzlCommand::Run)
                } else if c == 't' && detail.is_testable == Some(true) {
                    self.command_started(BzlCommand::Test)
                } else if c == 'q' {
                    self.closing()
                } else {
                    self.unhandled()
                },
                _ => self.unhandled(),
            },
            ModalModel::RunOutput(output) => if key.code == KeyCode::Char('q') {
                self.closing()
            } else {
                match output.after_key(key) {
                    Some(after) => (MainModel {
                        modals: self.modals.drop_last().push(ModalModel::RunOutput(after)),
                        ..self
                    }).handled(),
                    None => self.unhandled(),
                }
            },
        }
    }

    /// What a key does to the list of sub-packages.
    pub open spec fn after_packages_key(self, key: KeyEvent) -> KeyStep {
        match key_move(key) {
            Some(by) => (MainModel { packages: self.packages.moved(by), ..self }).handled(),
            None => match key.code {
                KeyCode::Enter => self.showing(
                    self.app.below(self.packages.selection.index() as int),
                ).handled(),
                KeyCode::Char('u') => self.showing(self.app.above()).handled(),
                _ => self.unhandled(),
            },
        }
    }

    /// What a key does to the list of rules.
    pub open spec fn after_rules_key(self, key: KeyEvent) -> KeyStep {
        match key_move(key) {
            Some(by) => (MainModel { rules: self.rules.moved(by), ..self }).handled(),
            None => match key.code {
                KeyCode::Enter => self.rule_selected(),
                _ => self.unhandled(),
            },
        }
    }

    /// The list that a key gives the focus to when no window is open, if it does.
    pub open spec fn switched(self, key: KeyEvent) -> Option<ViewId> {
        match key.code {
            KeyCode::Char(c) => if c == '1' || c == 'h' {
                Some(ViewId::Packages)
            } else if c == '2' || c == 'l' {
                Some(ViewId::Rules)
            } else {
                None
            },
            KeyCode::Tab => match self.active {
                ViewId::Packages => Some(ViewId::Rules),
                ViewId::Rules => Some(ViewId::Packages),
            },
            _ => None,
        }
    }

    /// What a key does.
    pub open spec fn after_key(self, key: KeyEvent) -> KeyStep {
        if self.modals.len() > 0 {
            self.after_modal_key(key)
        } else {
            match self.switched(key) {
                Some(view) => (MainModel { active: view, ..self }).handled(),
                None => match self.active {
                    ViewId::Packages => self.after_packages_key(key),
                    ViewId::Rules => self.after_rules_key(key),
                },
            }
        }
    }

    /// The screen after news for the window on top. News of another kind than the
    /// window's are dropped.
    pub open spec fn updated(self, update: ModalUpdateView) -> MainModel {
        if self.modals.len() == 0 {
            self
        } else {
            match (self.modals.last(), update) {
                (ModalModel::RuleDetail(detail), ModalUpdateView::Detail(u)) => MainModel {
                    modals: self.modals.drop_last().push(
                        ModalModel::RuleDetail(detail.updated(u)),
                    ),
                    ..self
                },
                (ModalModel::RunOutput(output), ModalUpdateView::Run(u)) => MainModel {
                    modals: self.modals.drop_last().push(ModalModel::RunOutput(output.updated(u))),
                    ..self
                },
                _ => self,
            }
        }
    }

    /// Where the news for the window on top comes from, if there is one.
    pub open spec fn update_source(self) -> Option<UpdateSource> {
        if self.modals.len() == 0 {
            None
        } else {
            match self.modals.last() {
                ModalModel::RuleDetail(_) => Some(UpdateSource::Detail),
                ModalModel::RunOutput(_) => Some(UpdateSource::Run),
            }
        }
    }
}

/// The screen: the workspace, the two lists, and the windows over them.
pub struct MainView<'a> {
    pub app: &'a mut AppState,
    pub packages_view: ListView,
    pub rules_view: ListView,
    pub active_view_id: ViewId,
    pub modal_open: bool,
    pub modals: Vec<Modal>,
}

impl<'a> View for MainView<'a> {
    type V = MainModel;

    open spec fn view(&self) -> MainModel {
        MainModel {
            app: (*self.app)@,
            packages: self.packages_view@,
            rules: self.rules_view@,
            active: self.active_view_id,
            modal_open: self.modal_open,
            modals: modal_views(self.modals@),
        }
    }
}

/// The length of the longest type of the rules, in bytes.
fn longest_type(rules: &Vec<Rule>) -> (r: usize)
    ensures
        r == type_width(rule_views(rules@)),
{
    let mut width: usize = 0;
    let ghost all = rule_views(rules@);
    for i in 0..rules.len()
        invariant
            all == rule_views(rules@),
            width == type_width(all.take(i as int)),
    {
        let len: usize = rules[i].rule_type.as_str().len();
        assert(all.take(i + 1).drop_last() =~= all.take(i as int));
        assert(all.take(i + 1).last() == rules@[i as int]@);
        if len > width {
            width = len;
        }
    }
    assert(all.take(rules@.len() as int) =~= all);
    width
}

impl<'a> MainView<'a> {
    /// The state of the application and of the screen are in order.
    pub open spec fn wf(&self) -> bool {
        (*self.app).wf() && self@.wf()
    }

    /// The screen at the start.
    pub fn new(app: &'a mut AppState) -> (r: Self)
        requires
            old(app).wf(),
            is_rooted(old(app)@),
        ensures
            r.wf(),
            r@ == MainModel::opened(old(app)@),
            *r.app == *old(app),
            *final(app) == *final(r.app),
    {
        let (packages_view, rules_view) = Self::build_views(app);
        let modals: Vec<Modal> = Vec::new();
        assert(modal_views(modals@) =~= Seq::empty());
        MainView {
            app,
            packages_view,
            rules_view,
            active_view_id: ViewId::Packages,
            modal_open: false,
            modals,
        }
    }

    /// The items of the list of sub-packages.
    pub fn packages_items(packages: &Vec<String>) -> (r: Vec<Vec<Span>>)
        ensures
            item_views(r@) == package_items(texts(packages@)),
    {
        let mut items: Vec<Vec<Span>> = Vec::new();
        let ghost all = package_items(texts(packages@));
        for i in 0..packages.len()
            invariant
                all == package_items(texts(packages@)),
                item_views(items@) == all.take(i as int),
        {
            let glyph = if i == packages.len() - 1 {
                "└── "
            } else {
                "├── "
            };
            let ghost before = item_views(items@);
            let item = vec![
                Span { text: glyph.to_owned(), style: colored(Color::DarkGray) },
                Span { text: packages[i].clone(), style: plain() },
            ];
            assert(span_views(item@) =~= all[i as int]);
            items.push(item);
            assert(item_views(items@) =~= before.push(all[i as int]));
            assert(all.take(i + 1) =~= all.take(i as int).push(all[i as int]));
        }
        assert(all.take(packages@.len() as int) =~= all);
        items
    }

    /// The items of the list of rules.
    pub fn rules_items(rules: &Vec<Rule>) -> (r: Vec<Vec<Span>>)
        ensures
            item_views(r@) == rule_items(rule_views(rules@)),
    {
        let width = longest_type(rules);
        let mut items: Vec<Vec<Span>> = Vec::new();
        let ghost all = rule_items(rule_views(rules@));
        for i in 0..rules.len()
            invariant
                width == type_width(rule_views(rules@)),
                all == rule_items(rule_views(rules@)),
                item_views(items@) == all.take(i as int),
        {
            let ghost before = item_views(items@);
            let mut name = " ".to_owned();
            name.append(rules[i].name.as_str());
            let item = vec![
                Span {
                    text: pad(rules[i].rule_type.as_str(), width),
                    style: bold_colored(Color::Blue),
                },
                Span { text: name, style: plain() },
            ];
            assert(span_views(item@) =~= all[i as int]);
            items.push(item);
            assert(item_views(items@) =~= before.push(all[i as int]));
            assert(all.take(i + 1) =~= all.take(i as int).push(all[i as int]));
        }
        assert(all.take(rules@.len() as int) =~= all);
        items
    }

    /// The lists of the package shown.
    pub fn build_views(app: &AppState) -> (r: (ListView, ListView))
        requires
            app.wf(),
            app@.current().len() > 0,
        ensures
            r.0@ == packages_list(app@),
            r.1@ == rules_list(app@),
    {
        let mut header = "//".to_owned();
        header.append(app.current_package().as_str());
        let packages_bindings: Vec<Binding> = vec![
            ("↑↓/jk/C-u/C-d/PgUp/PgDn", "Navigate"),
            ("Enter", "Select"),
            ("u", "Go to Parent"),
            ("Tab/h/l", "Switch View"),
            ("q", "Quit"),
        ];
        assert(binding_views(packages_bindings@) =~= packages_list(app@).bindings);
        let packages_view = ListView::new(
            "1: Packages",
            Some(header),
            Self::packages_items(&app.children),
            ViewId::Packages,
            packages_bindings,
            0,
        );
        let rules_bindings: Vec<Binding> = vec![
            ("↑↓/jk/C-u/C-d/PgUp/PgDn", "Navigate"),
            ("Enter", "View Rule"),
            ("Tab/h/l", "Switch View"),
            ("q", "Quit"),
        ];
        assert(binding_views(rules_bindings@) =~= rules_list(app@).bindings);
        let rules_view = ListView::new(
            "2: Rules",
            None,
            Self::rules_items(&app.rules),
            ViewId::Rules,
            rules_bindings,
            0,
        );
        (packages_view, rules_view)
    }

    /// Makes the lists those of the package shown.
    fn refresh_views(&mut self)
        requires
            (*old(self).app).wf(),
            old(self)@.app.current().len() > 0,
        ensures
            *final(self).app == *old(self).app,
            *final(final(self).app) == *final(old(self).app),
            final(self)@ == old(self)@.showing(old(self)@.app),
    {
        assert(texts(self.app.children@).len() == self.app.children@.len());
        if self.app.children.is_empty() {
            self.active_view_id = ViewId::Rules;
        } else {
            self.active_view_id = ViewId::Packages;
        }
        let (packages_view, rules_view) = Self::build_views(self.app);
        self.packages_view = packages_view;
        self.rules_view = rules_view;
    }

    /// Enters the sub-package selected.
    fn select_package(&mut self)
        requires
            old(self).wf(),
        ensures
            final(self).wf(),
            *final(final(self).app) == *final(old(self).app),
            final(self)@ == old(self)@.showing(
                old(self)@.app.below(old(self)@.packages.selection.index() as int),
            ),
            old(self)@.app.is_listed() ==> final(self)@.app.is_listed(),
    {
        let ghost before = self@.app;
        self.app.enter_selected_package(self.packages_view.selected());
        assert(is_rooted(self@.app));
        self.refresh_views();
    }

    /// Goes back to the package from which the one shown was entered.
    fn go_to_parent_package(&mut self)
        requires
            old(self).wf(),
        ensures
            final(self).wf(),
            *final(final(self).app) == *final(old(self).app),
            final(self)@ == old(self)@.showing(old(self)@.app.above()),
            old(self)@.app.is_listed() ==> final(self)@.app.is_listed(),
    {
        self.app.go_up();
        assert(is_rooted(self@.app));
        self.refresh_views();
    }

    /// Gives the focus to the list with the given number.
    fn focus_view(&mut self, index: usize)
        ensures
            *final(self).app == *old(self).app,
            *final(final(self).app) == *final(old(self).app),
            final(self)@ == (MainModel {
                active: if index == 1 {
                    ViewId::Packages
                } else if index == 2 {
                    ViewId::Rules
                } else {
                    old(self)@.active
                },
                ..old(self)@
            }),
    {
        match index {
            1 => {
                self.active_view_id = ViewId::Packages;
            },
            2 => {
                self.active_view_id = ViewId::Rules;
            },
            _ => {},
        }
    }

    /// Gives the focus to the other list.
    fn cycle_active_view(&mut self)
        ensures
            *final(self).app == *old(self).app,
            *final(final(self).app) == *final(old(self).app),
            final(self)@ == (MainModel {
                active: match old(self)@.active {
                    ViewId::Packages => ViewId::Rules,
                    ViewId::Rules => ViewId::Packages,
                },
                ..old(self)@
            }),
    {
        match self.active_view_id {
            ViewId::Packages => {
                self.active_view_id = ViewId::Rules;
            },
            ViewId::Rules => {
                self.active_view_id = ViewId::Packages;
            },
        }
    }

    /// Opens a window.
    fn push_modal(&mut self, modal: Modal)
        ensures
            *final(self).app == *old(self).app,
            *final(final(self).app) == *final(old(self).app),
            final(self)@ == (MainModel {
                modals: old(self)@.modals.push(modal@),
                modal_open: true,
                ..old(self)@
            }),
    {
        let ghost before = modal_views(self.modals@);
        let ghost top = modal@;
        self.modals.push(modal);
        assert(modal_views(self.modals@) =~= before.push(top));
        self.sync_modal_open();
    }

    /// Notes whether a window is open.
    fn sync_modal_open(&mut self)
        ensures
            *final(self).app == *old(self).app,
            *final(final(self).app) == *final(old(self).app),
            final(self)@ == (MainModel {
                modal_open: old(self)@.modals.len() > 0,
                ..old(self)@
            }),
    {
        assert(modal_views(self.modals@).len() == self.modals@.len());
        self.modal_open = !self.modals.is_empty();
    }

    /// Closes the window on top.
    fn pop_modal(&mut self)
        requires
            old(self).modals@.len() > 0,
        ensures
            *final(self).app == *old(self).app,
            *final(final(self).app) == *final(old(self).app),
            final(self)@ == old(self)@.closing().view,
    {
        let ghost before = modal_views(self.modals@);
        self.modals.pop();
        assert(modal_views(self.modals@) =~= before.drop_last());
        if self.modals.is_empty() {
            self.active_view_id = ViewId::Rules;
        }
        self.sync_modal_open();
    }

    /// Shows the rule selected, if there is one. Returns the queries about it.
    fn select_rule(&mut self) -> (r: Action)
        requires
            old(self).wf(),
        ensures
            final(self).wf(),
            *final(self).app == *old(self).app,
            *final(final(self).app) == *final(old(self).app),
            final(self)@ == old(self)@.rule_selected().view,
            r@ == old(self)@.rule_selected().action,
    {
        assert(rule_views(self.app.rules@).len() == self.app.rules@.len());
        match self.app.spawn_rule_detail(self.rules_view.selected()) {
            None => Action::Nothing,
            Some(queries) => {
                self.push_modal(Modal::RuleDetail(RuleContentModal::new()));
                Action::QueryRule(queries)
            },
        }
    }

    /// Shows the output of a command for the rule selected, if there is one. Returns
    /// the command.
    fn spawn_run(&mut self, command: BzlCommand) -> (r: Action)
        requires
            old(self).wf(),
        ensures
            final(self).wf(),
            *final(self).app == *old(self).app,
            *final(final(self).app) == *final(old(self).app),
            final(self)@ == old(self)@.command_started(command).view,
            r@ == old(self)@.command_started(command).action,
    {
        let selected: usize = self.rules_view.selected();
        assert(rule_views(self.app.rules@).len() == self.app.rules@.len());
        if selected >= self.app.rules.len() {
            return Action::Nothing;
        }
        let (invocation, target) = self.app.spawn_bzl_command(command, &self.app.rules[selected]);
        let mut title = command.label().to_owned();
        title.append(" ");
        title.append(target.as_str());
        self.push_modal(Modal::RunOutput(RunOutputModal::new(title)));
        Action::RunCommand(invocation)
    }

    /// Where the news for the window on top comes from, if there is one.
    pub fn next_modal_update(&self) -> (r: Option<UpdateSource>)
        ensures
            r == self@.update_source(),
    {
        assert(modal_views(self.modals@).len() == self.modals@.len());
        if self.modals.len() == 0 {
            return None;
        }
        match &self.modals[self.modals.len() - 1] {
            Modal::RuleDetail(_) => Some(UpdateSource::Detail),
            Modal::RunOutput(_) => Some(UpdateSource::Run),
        }
    }

    /// Takes news for the window on top.
    pub fn apply_modal_update(&mut self, update: ModalUpdate)
        requires
            old(self).wf(),
        ensures
            final(self).wf(),
            *final(self).app == *old(self).app,
            *final(final(self).app) == *final(old(self).app),
            final(self)@ == old(self)@.updated(update@),
    {
        let ghost before = modal_views(self.modals@);
        let n: usize = self.modals.len();
        if n == 0 {
            return ;
        }
        match (&mut self.modals[n - 1], update) {
            (Modal::RuleDetail(modal), ModalUpdate::Detail(update)) => {
                modal.apply_update(update);
            },
            (Modal::RunOutput(modal), ModalUpdate::Run(update)) => {
                modal.apply_update(update);
            },
            _ => {},
        }
        proof {
            let after = modal_views(self.modals@);
            assert(after =~= before.drop_last().push(after.last()));
            if after.last() == before.last() {
                assert(after =~= before);
            }
        }
    }

    /// Handle the key event, telling whether the event was handled. If it was not, we
    /// expect the render loop to perform any other handling at the top level (e.g.
    /// quitting the app).
    pub fn handle_key(&mut self, key: KeyEvent) -> (r: KeyOutcome)
        requires
            old(self).wf(),
            old(self)@.accepts(key),
        ensures
            final(self).wf(),
            *final(final(self).app) == *final(old(self).app),
            final(self)@ == old(self)@.after_key(key).view,
            r.handled == old(self)@.after_key(key).handled,
            r.action@ == old(self)@.after_key(key).action,
            !r.handled ==> *final(self).app == *old(self).app && final(self)@ == old(self)@
                && r.action@ == ActionView::Nothing,
            final(self).modal_open == (final(self).modals@.len() > 0),
            -1 <= final(self).modals@.len() - old(self).modals@.len() <= 1,
            old(self)@.app.is_listed() ==> final(self)@.app.is_listed(),
    {
        assert(modal_views(self.modals@).len() == self.modals@.len());
        if !self.modals.is_empty() {
            return self.handle_modal_key(key);
        }
        match key.code {
            KeyCode::Char('1') | KeyCode::Char('h') => {
                self.focus_view(1);
                return KeyOutcome { handled: true, action: Action::Nothing };
            },
            KeyCode::Char('2') | KeyCode::Char('l') => {
                self.focus_view(2);
                return KeyOutcome { handled: true, action: Action::Nothing };
            },
            KeyCode::Tab => {
                self.cycle_active_view();
                return KeyOutcome { handled: true, action: Action::Nothing };
            },
            _ => {},
        }
        match self.active_view_id {
            ViewId::Packages => {
                if self.packages_view.handle_key(key) {
                    return KeyOutcome { handled: true, action: Action::Nothing };
                }
                match key.code {
                    KeyCode::Enter => {
                        self.select_package();
                        KeyOutcome { handled: true, action: Action::Nothing }
                    },
                    KeyCode::Char('u') => {
                        self.go_to_parent_package();
                        KeyOutcome { handled: true, action: Action::Nothing }
                    },
                    _ => KeyOutcome { handled: false, action: Action::Nothing },
                }
            },
            ViewId::Rules => {
                if self.rules_view.handle_key(key) {
                    return KeyOutcome { handled: true, action: Action::Nothing };
                }
                match key.code {
                    KeyCode::Enter => {
                        let action = self.select_rule();
                        KeyOutcome { handled: true, action }
                    },
                    _ => KeyOutcome { handled: false, action: Action::Nothing },
                }
            },
        }
    }

    /// Handles a key when a window is open.
    pub fn handle_modal_key(&mut self, key: KeyEvent) -> (r: KeyOutcome)
        requires
            old(self).wf(),
            old(self).modals@.len() > 0,
        ensures
            final(self).wf(),
            *final(self).app == *old(self).app,
            *final(final(self).app) == *final(old(self).app),
            final(self)@ == old(self)@.after_modal_key(key).view,
            r.handled == old(self)@.after_modal_key(key).handled,
            r.action@ == old(self)@.after_modal_key(key).action,
            old(self)@.modals.last() matches ModalModel::RuleDetail(detail) ==> r.handled
                == detail.tells_of(key),
            !r.handled ==> final(self)@ == old(self)@,
    {
        proof {
            if let ModalModel::RuleDetail(detail) = self@.modals.last() {
                shown_bindings_are_taken(detail, key);
            }
        }
        let ghost before = modal_views(self.modals@);
        let n: usize = self.modals.len();
        assert(before.last() == self.modals@[n - 1]@);
        match &mut self.modals[n - 1] {
            Modal::RuleDetail(modal) => {
                let is_runnable = matches!(modal.is_runnable, Some(true));
                let is_testable = matches!(modal.is_testable, Some(true));
                assert(self.modals@ =~= old(self).modals@);
                match key.code {
                    KeyCode::Char('b') => {
                        let action = self.spawn_run(BzlCommand::Build);
                        KeyOutcome { handled: true, action }
                    },
                    KeyCode::Char('r') if is_runnable => {
                        let action = self.spawn_run(BzlCommand::Run);
                        KeyOutcome { handled: true, action }
                    },
                    KeyCode::Char('t') if is_testable => {
                        let action = self.spawn_run(BzlCommand::Test);
                        KeyOutcome { handled: true, action }
                    },
                    KeyCode::Char('q') => {
                        self.pop_modal();
                        KeyOutcome { handled: true, action: Action::CloseModal }
                    },
                    _ => KeyOutcome { handled: false, action: Action::Nothing },
                }
            },
            Modal::RunOutput(modal) => match key.code {
                KeyCode::Char('q') => {
                    assert(self.modals@ =~= old(self).modals@);
                    self.pop_modal();
                    KeyOutcome { handled: true, action: Action::CloseModal }
                },
                _ => {
                    let handled = modal.handle_key(key);
                    proof {
                        let after = modal_views(self.modals@);
                        assert(after =~= before.drop_last().push(after.last()));
                        if !handled {
                            assert(after =~= before);
                        }
                    }
                    KeyOutcome { handled, action: Action::Nothing }
                },
            },
        }
    }

    /// Whether the key can be taken.
    pub fn accepts_key(&self, key: KeyEvent) -> (r: bool)
        ensures
            r == self@.accepts(key),
    {
        assert(modal_views(self.modals@).len() == self.modals@.len());
        if !self.modals.is_empty() {
            return true;
        }
        match self.active_view_id {
            ViewId::Packages => self.packages_view.accepts_key(key),
            ViewId::Rules => self.rules_view.accepts_key(key),
        }
    }

    /// Takes an event of a key. Only presses count, and `q` is the end where it means
    /// nothing else. What cannot be taken changes nothing.
    pub fn handle_event(&mut self, key: KeyEvent) -> (r: LoopStep)
        requires
            old(self).wf(),
        ensures
            final(self).wf(),
            *final(final(self).app) == *final(old(self).app),
            final(self)@ == (if key.kind == KeyEventKind::Press && old(self)@.accepts(key) {
                old(self)@.after_key(key).view
            } else {
                old(self)@
            }),
            r is NoItem || r is Quit ==> *final(self).app == *old(self).app,
            r is NoItem <==> key.kind == KeyEventKind::Press && !old(self)@.accepts(key),
            r is Quit <==> key.kind == KeyEventKind::Press && key.code == KeyCode::Char('q')
                && !old(self)@.after_key(key).handled,
            r matches LoopStep::Continue(action) ==> action@ == (if key.kind
                == KeyEventKind::Press {
                old(self)@.after_key(key).action
            } else {
                ActionView::Nothing
            }),
            final(self).modal_open == (final(self).modals@.len() > 0),
            -1 <= final(self).modals@.len() - old(self).modals@.len() <= 1,
            old(self)@.app.is_listed() ==> final(self)@.app.is_listed(),
    {
        assert(modal_views(self.modals@).len() == self.modals@.len());
        if key.kind != KeyEventKind::Press {
            return LoopStep::Continue(Action::Nothing);
        }
        if !self.accepts_key(key) {
            return LoopStep::NoItem;
        }
        let outcome = self.handle_key(key);
        if !outcome.handled && key.code == KeyCode::Char('q') {
            LoopStep::Quit
        } else {
            LoopStep::Continue(outcome.action)
        }
    }
}

/// The share of the middle, with what is left divided between the sides.
pub open spec fn middle(percent: u16) -> Seq<Constraint> {
    let side = ((100 - percent) / 2) as u16;
    seq![
        Constraint::Percentage(side),
        Constraint::Percentage(percent),
        Constraint::Percentage(side),
    ]
}

/// `parts` may be what `area` is divided into.
pub open spec fn divided(
    direction: Direction,
    constraints: Seq<Constraint>,
    area: Rect,
    parts: Seq<Rect>,
) -> bool {
    may_split(direction, constraints, area, parts) && spans_across(
        direction,
        constraints,
        area,
        parts,
    )
}

/// `r` is the middle of `container`, `percent_x` of its width and `percent_y` of
/// its height.
pub open spec fn is_centered(percent_x: u16, percent_y: u16, container: Rect, r: Rect) -> bool {
    exists|rows: Seq<Rect>, columns: Seq<Rect>|
        {
            &&& #[trigger] divided(Direction::Vertical, middle(percent_y), container, rows)
            &&& #[trigger] divided(Direction::Horizontal, middle(percent_x), rows[1], columns)
            &&& r == columns[1]
        }
}

/// The middle part of an area.
fn middle_part(direction: Direction, percent: u16, area: Rect) -> (r: (Rect, Ghost<Seq<Rect>>))
    requires
        percent <= 100,
    ensures
        divided(direction, middle(percent), area, r.1@),
        r.0 == r.1@[1],
{
    let side: u16 = (100 - percent) / 2;
    let constraints = vec![
        Constraint::Percentage(side),
        Constraint::Percentage(percent),
        Constraint::Percentage(side),
    ];
    assert(constraints@ =~= middle(percent));
    let parts = split_area(direction, &constraints, area);
    (parts[1], Ghost(parts@))
}

/// How the screen is divided: the title and the lists.
pub open spec fn screen_constraints() -> Seq<Constraint> {
    seq![Constraint::Length(3), Constraint::Length(0), Constraint::Min(1)]
}

/// How the room for the lists is divided between them.
pub open spec fn pane_constraints() -> Seq<Constraint> {
    seq![Constraint::Percentage(30), Constraint::Percentage(70)]
}

impl MainModel {
    /// The title of the screen.
    pub open spec fn title_piece(self, area: Rect) -> PieceView {
        PieceView::Boxed {
            area,
            content: ContentView::Raw("bzlui - //"@ + self.app.package()),
            style: bold_style(),
            alignment: Alignment::Left,
        }
    }

    /// `after` is the screen once the window on top is drawn in `area`, and `pieces`
    /// are the drawing.
    pub open spec fn top_drawn(self, area: Rect, after: MainModel, pieces: Seq<PieceView>) -> bool {
        match self.modals.last() {
            ModalModel::RuleDetail(detail) => after == self && detail.drawn(area, pieces),
            ModalModel::RunOutput(output) => exists|settled: RunModel|
                {
                    &&& #[trigger] output.drawn(area, settled, pieces)
                    &&& after == (MainModel {
                        modals: self.modals.drop_last().push(ModalModel::RunOutput(settled)),
                        ..self
                    })
                },
        }
    }

    /// `after` is the screen once the window on top, if there is one, is drawn over
    /// the lists in `area`, and `pieces` are the drawing.
    pub open spec fn modal_drawn(
        self,
        area: Rect,
        after: MainModel,
        pieces: Seq<PieceView>,
    ) -> bool {
        if self.modals.len() == 0 {
            after == self && pieces == Seq::<PieceView>::empty()
        } else {
            exists|window: Rect, top: Seq<PieceView>|
                {
                    &&& is_centered(80, 80, area, window)
                    &&& #[trigger] self.top_drawn(window, after, top)
                    &&& pieces == seq![PieceView::Clear { area: window }] + top
                }
        }
    }

    /// `after` is the screen once the lists and the window on top are drawn in `area`,
    /// and `pieces` are the drawing.
    pub open spec fn body_drawn(self, area: Rect, after: MainModel, pieces: Seq<PieceView>) -> bool {
        exists|
            panes: Seq<Rect>,
            packages_after: ListModel,
            packages: Seq<PieceView>,
            rules_after: ListModel,
            rules: Seq<PieceView>,
            modal: Seq<PieceView>,
        |
            {
                &&& divided(Direction::Horizontal, pane_constraints(), area, panes)
                &&& #[trigger] self.packages.drawn(
                    self.packages.focused(self.active, self.modal_open),
                    panes[0],
                    packages_after,
                    packages,
                )
                &&& #[trigger] self.rules.drawn(
                    self.rules.focused(self.active, self.modal_open),
                    panes[1],
                    rules_after,
                    rules,
                )
                &&& #[trigger] (MainModel {
                    packages: packages_after,
                    rules: rules_after,
                    ..self
                }).modal_drawn(area, after, modal)
                &&& pieces == packages + rules + modal
            }
    }

    /// `after` is the screen once it is drawn in `area`, and `pieces` are the drawing.
    pub open spec fn drawn(self, area: Rect, after: MainModel, pieces: Seq<PieceView>) -> bool {
        exists|parts: Seq<Rect>, body: Seq<PieceView>|
            {
                &&& #[trigger] divided(Direction::Vertical, screen_constraints(), area, parts)
                &&& #[trigger] self.body_drawn(parts[2], after, body)
                &&& pieces == seq![self.title_piece(parts[0])] + body
            }
    }
}

/// Appends the pieces of one drawing to those of another.
fn append_pieces(pieces: &mut Vec<Piece>, more: Vec<Piece>)
    ensures
        piece_views(final(pieces)@) == piece_views(old(pieces)@) + piece_views(more@),
{
    let mut more = more;
    let ghost added = more@;
    pieces.append(&mut more);
    assert(piece_views(pieces@) =~= piece_views(old(pieces)@) + piece_views(added));
}

impl<'a> MainView<'a> {
    /// Slice out the middle `percent_x`% horizontally and `percent_y`% vertically from a
    /// rect area.
    pub fn centered_rect(percent_x: u16, percent_y: u16, container: Rect) -> (r: Rect)
        requires
            percent_x <= 100,
            percent_y <= 100,
        ensures
            is_centered(percent_x, percent_y, container, r),
            lies_within(r, container),
    {
        let (row, Ghost(rows)) = middle_part(Direction::Vertical, percent_y, container);
        let (part, Ghost(columns)) = middle_part(Direction::Horizontal, percent_x, row);
        assert(divided(Direction::Vertical, middle(percent_y), container, rows));
        assert(divided(Direction::Horizontal, middle(percent_x), rows[1], columns));
        part
    }

    /// The drawing of the window on top, over the lists in `area`.
    fn render_modal(&mut self, area: Rect) -> (r: Vec<Piece>)
        requires
            old(self).wf(),
        ensures
            final(self).wf(),
            *final(self).app == *old(self).app,
            *final(final(self).app) == *final(old(self).app),
            old(self)@.modal_drawn(area, final(self)@, piece_views(r@)),
    {
        let ghost before = self@;
        let n: usize = self.modals.len();
        assert(modal_views(self.modals@).len() == n);
        let mut pieces: Vec<Piece> = Vec::new();
        assert(piece_views(pieces@) =~= Seq::empty());
        if n == 0 {
            return pieces;
        }
        let window = Self::centered_rect(80, 80, area);
        pieces.push(Piece::Clear { area: window });
        assert(piece_views(pieces@) =~= seq![PieceView::Clear { area: window }]);
        let top = match &mut self.modals[n - 1] {
            Modal::RuleDetail(modal) => modal.render(window),
            Modal::RunOutput(modal) => modal.render(window),
        };
        proof {
            let after = modal_views(self.modals@);
            assert(after =~= before.modals.drop_last().push(after.last()));
            if let ModalModel::RuleDetail(_) = before.modals.last() {
                assert(after =~= before.modals);
            }
            assert(before.top_drawn(window, self@, piece_views(top@)));
        }
        append_pieces(&mut pieces, top);
        pieces
    }

    /// The drawing of the lists and of the window on top, in `area`.
    fn render_body(&mut self, area: Rect) -> (r: Vec<Piece>)
        requires
            old(self).wf(),
        ensures
            final(self).wf(),
            *final(self).app == *old(self).app,
            *final(final(self).app) == *final(old(self).app),
            old(self)@.body_drawn(area, final(self)@, piece_views(r@)),
    {
        let constraints = vec![Constraint::Percentage(30), Constraint::Percentage(70)];
        assert(constraints@ =~= pane_constraints());
        let panes = split_area(Direction::Horizontal, &constraints, area);
        let packages_focused = self.packages_view.is_active(self.active_view_id, self.modal_open);
        let mut pieces = self.packages_view.render(packages_focused, panes[0]);
        let ghost packages = piece_views(pieces@);
        let rules_focused = self.rules_view.is_active(self.active_view_id, self.modal_open);
        let rules = self.rules_view.render(rules_focused, panes[1]);
        let ghost rules_pieces = piece_views(rules@);
        append_pieces(&mut pieces, rules);
        let ghost lists_drawn = self@;
        let modal = self.render_modal(area);
        let ghost modal_pieces = piece_views(modal@);
        append_pieces(&mut pieces, modal);
        proof {
            assert(lists_drawn.modal_drawn(area, self@, modal_pieces));
            assert(old(self)@.packages.drawn(
                packages_focused,
                panes@[0],
                lists_drawn.packages,
                packages,
            ));
            assert(old(self)@.rules.drawn(
                rules_focused,
                panes@[1],
                lists_drawn.rules,
                rules_pieces,
            ));
            assert(divided(Direction::Horizontal, pane_constraints(), area, panes@));
        }
        pieces
    }

    /// Whether the list has the focus.
    pub fn is_active(&self, view: ViewId) -> (r: bool)
        ensures
            r == self@.focused(view),
    {
        self.active_view_id == view && !self.modal_open
    }

    /// The title of the screen.
    pub fn draw_title(&self, area: Rect) -> (r: Piece)
        requires
            self.wf(),
        ensures
            r@ == self@.title_piece(area),
    {
        let mut title = "bzlui - //".to_owned();
        title.append(self.app.current_package().as_str());
        Piece::Boxed { area, content: Content::Raw(title), style: bold(), alignment: Alignment::Left }
    }

    /// A drawing of the screen in `area`. It brings the items selected onto the screen and
    /// fits the scrolling of the window on top.
    pub fn render(&mut self, area: Rect) -> (r: Vec<Piece>)
        requires
            old(self).wf(),
        ensures
            final(self).wf(),
            *final(self).app == *old(self).app,
            *final(final(self).app) == *final(old(self).app),
            old(self)@.drawn(area, final(self)@, piece_views(r@)),
    {
        let constraints = vec![Constraint::Length(3), Constraint::Length(0), Constraint::Min(1)];
        assert(constraints@ =~= screen_constraints());
        let parts = split_area(Direction::Vertical, &constraints, area);
        let mut pieces = vec![self.draw_title(parts[0])];
        assert(piece_views(pieces@) =~= seq![self@.title_piece(parts@[0])]);
        let body = self.render_body(parts[2]);
        let ghost body_pieces = piece_views(body@);
        append_pieces(&mut pieces, body);
        proof {
            assert(divided(Direction::Vertical, screen_constraints(), area, parts@));
            assert(old(self)@.body_drawn(parts@[2], self@, body_pieces));
        }
        pieces
    }
}

} // verus!
