//! The windows that open over the lists: what is known of a rule, and the output
//! of a command.

use vstd::prelude::*;

use crate::bazel::{DetailUpdate, DetailUpdateView, RunUpdate, RunUpdateView};
use crate::key::{KeyCode, KeyEvent};
use crate::list_view::{
    Binding, Move, PAGE, binding_views, bindings_piece, key_move, move_of, render_bindings_line,
};
use crate::scene::{
    Alignment, Color, Constraint, Content, ContentView, Direction, Piece, PieceView, Rect, Span,
    SpanView, TextLine, TextLineView, color_style, colored, inner_area, inside, line_views,
    may_split, piece_views, plain, plain_style, spans_across, split_area,
};
use crate::text::{Text, decimal, decimal_string, texts};

verus! {

/// The definition of a rule, as far as it is known.
#[derive(Debug)]
pub enum RuleText {
    Loading,
    Loaded(String),
    Error(String),
}

/// What the definition of a rule holds.
pub enum RuleTextView {
    Loading,
    Loaded(Text),
    Error(Text),
}

impl View for RuleText {
    type V = RuleTextView;

    open spec fn view(&self) -> RuleTextView {
        match self {
            RuleText::Loading => RuleTextView::Loading,
            RuleText::Loaded(text) => RuleTextView::Loaded(text@),
            RuleText::Error(error) => RuleTextView::Error(error@),
        }
    }
}

/// The window that shows a rule.
#[derive(Debug)]
pub struct RuleContentModal {
    pub text: RuleText,
    pub is_runnable: Option<bool>,
    pub is_testable: Option<bool>,
    pub bindings: Vec<Binding>,
}

/// What the window that shows a rule holds.
pub struct DetailModel {
    pub text: RuleTextView,
    pub is_runnable: Option<bool>,
    pub is_testable: Option<bool>,
    pub bindings: Seq<(Text, Text)>,
}

impl View for RuleContentModal {
    type V = DetailModel;

    open spec fn view(&self) -> DetailModel {
        DetailModel {
            text: self.text@,
            is_runnable: self.is_runnable,
            is_testable: self.is_testable,
            bindings: binding_views(self.bindings@),
        }
    }
}

/// The bindings of the window that shows a rule: a rule can be built, and it can
/// be run or tested if that is known of it.
pub open spec fn detail_bindings(is_runnable: Option<bool>, is_testable: Option<bool>) -> Seq<
    (Text, Text),
> {
    let build = seq![("b"@, "Build"@)];
    let run = if is_runnable == Some(true) {
        build.push(("r"@, "Run"@))
    } else {
        build
    };
    let test = if is_testable == Some(true) {
        run.push(("t"@, "Test"@))
    } else {
        run
    };
    test.push(("q"@, "Close"@))
}

/// How the inside of a window is divided: the text and a line for the bindings.
pub open spec fn modal_constraints() -> Seq<Constraint> {
    seq![Constraint::Min(0), Constraint::Length(1)]
}

/// `sections` may be how the inside of a window in `area` is divided.
pub open spec fn modal_sections(area: Rect, sections: Seq<Rect>) -> bool {
    &&& may_split(Direction::Vertical, modal_constraints(), inside(area, 1), sections)
    &&& spans_across(Direction::Vertical, modal_constraints(), inside(area, 1), sections)
}

/// Divides the inside of a window.
fn divide_modal(area: Rect) -> (r: Vec<Rect>)
    ensures
        modal_sections(area, r@),
        r@.len() == 2,
{
    let constraints = vec![Constraint::Min(0), Constraint::Length(1)];
    assert(constraints@ =~= modal_constraints());
    split_area(Direction::Vertical, &constraints, inner_area(area, 1))
}

impl DetailModel {
    /// The window before anything is known of the rule.
    pub open spec fn opened() -> DetailModel {
        DetailModel {
            text: RuleTextView::Loading,
            is_runnable: None,
            is_testable: None,
            bindings: detail_bindings(None, None),
        }
    }

    /// The bindings are those of what is known of the rule.
    pub open spec fn wf(self) -> bool {
        self.bindings == detail_bindings(self.is_runnable, self.is_testable)
    }

    /// The key is one that means something to the window: `b` and `q`, and `r` and `t`
    /// if it is known of the rule that it can be run or tested.
    pub open spec fn takes(self, key: KeyEvent) -> bool {
        match key.code {
            KeyCode::Char(c) => {
                ||| c == 'b'
                ||| c == 'q'
                ||| c == 'r' && self.is_runnable == Some(true)
                ||| c == 't' && self.is_testable == Some(true)
            },
            _ => false,
        }
    }

    /// The key is one that the bindings tell of.
    pub open spec fn tells_of(self, key: KeyEvent) -> bool {
        match key.code {
            KeyCode::Char(c) => exists|i: int|
                0 <= i < self.bindings.len() && (#[trigger] self.bindings[i]).0 == seq![c],
            _ => false,
        }
    }

    /// The same, with the bindings of what is known of the rule.
    pub open spec fn rebound(self) -> DetailModel {
        DetailModel { bindings: detail_bindings(self.is_runnable, self.is_testable), ..self }
    }

    /// The window after an answer about the rule.
    pub open spec fn updated(self, update: DetailUpdateView) -> DetailModel {
        (match update {
            DetailUpdateView::Text(Ok(text)) => DetailModel {
                text: RuleTextView::Loaded(text),
                ..self
            },
            DetailUpdateView::Text(Err(error)) => DetailModel {
                text: RuleTextView::Error(error),
                ..self
            },
            DetailUpdateView::Runnable(value) => DetailModel { is_runnable: Some(value), ..self },
            DetailUpdateView::Testable(value) => DetailModel { is_testable: Some(value), ..self },
        }).rebound()
    }

    /// The definition of the rule, in `area`.
    pub open spec fn text_piece(self, area: Rect) -> PieceView {
        let (text, style, alignment) = match self.text {
            RuleTextView::Loading => (
                "Loading…"@,
                color_style(Color::DarkGray),
                Alignment::Center,
            ),
            RuleTextView::Loaded(text) => (text, plain_style(), Alignment::Left),
            RuleTextView::Error(error) => (error, color_style(Color::Red), Alignment::Left),
        };
        PieceView::Paragraph { area, content: ContentView::Raw(text), style, alignment, scroll: 0 }
    }

    /// The drawing of the window, with its inside divided into `sections`.
    pub open spec fn scene(self, area: Rect, sections: Seq<Rect>) -> Seq<PieceView> {
        seq![
            PieceView::Frame { area, title: "Rule Detail"@, border: color_style(Color::Blue) },
            self.text_piece(sections[0]),
            bindings_piece(self.bindings, sections[1]),
        ]
    }

    /// `pieces` are a drawing of the window in `area`.
    pub open spec fn drawn(self, area: Rect, pieces: Seq<PieceView>) -> bool {
        exists|sections: Seq<Rect>| #[trigger]
            modal_sections(area, sections) && pieces == self.scene(area, sections)
    }
}

/// The bindings that the window of a rule shows tell of the keys that it takes, and of
/// no others.
pub proof fn shown_bindings_are_taken(detail: DetailModel, key: KeyEvent)
    requires
        detail.wf(),
    ensures
        detail.tells_of(key) == detail.takes(key),
{
    reveal_strlit("b");
    reveal_strlit("r");
    reveal_strlit("t");
    reveal_strlit("q");
    assert("b"@ =~= seq!['b']);
    assert("r"@ =~= seq!['r']);
    assert("t"@ =~= seq!['t']);
    assert("q"@ =~= seq!['q']);
    if let KeyCode::Char(c) = key.code {
        let bindings = detail.bindings;
        let runs = detail.is_runnable == Some(true);
        let tests = detail.is_testable == Some(true);
        let test_at = if runs {
            2int
        } else {
            1int
        };
        assert(bindings[0].0 == seq!['b']);
        assert(bindings[bindings.len() - 1].0 == seq!['q']);
        assert(runs ==> bindings[1].0 == seq!['r']);
        assert(tests ==> bindings[test_at].0 == seq!['t']);
        assert(seq![c][0] == c);
        if detail.tells_of(key) {
            let i = choose|i: int|
                0 <= i < bindings.len() && (#[trigger] bindings[i]).0 == seq![c];
            assert(bindings[i].0[0] == c);
            assert(i == 0 || i == bindings.len() - 1 || (runs && i == 1) || (tests && i
                == test_at));
        }
    }
}

impl RuleContentModal {
    /// The window before anything is known of the rule.
    pub fn new() -> (r: Self)
        ensures
            r@ == DetailModel::opened(),
            r@.wf(),
    {
        let mut modal = RuleContentModal {
            text: RuleText::Loading,
            is_runnable: None,
            is_testable: None,
            bindings: Vec::new(),
        };
        modal.rebuild_bindings();
        modal
    }

    /// Takes an answer about the rule.
    pub fn apply_update(&mut self, update: DetailUpdate)
        ensures
            final(self)@ == old(self)@.updated(update@),
            final(self)@.wf(),
    {
        match update {
            DetailUpdate::Text(Ok(text)) => {
                self.text = RuleText::Loaded(text);
            },
            DetailUpdate::Text(Err(error)) => {
                self.text = RuleText::Error(error);
            },
            DetailUpdate::Runnable(value) => {
                self.is_runnable = Some(value);
            },
            DetailUpdate::Testable(value) => {
                self.is_testable = Some(value);
            },
        }
        self.rebuild_bindings();
    }

    /// Sets the bindings to those of what is known of the rule.
    fn rebuild_bindings(&mut self)
        ensures
            final(self)@ == old(self)@.rebound(),
    {
        let mut bindings: Vec<Binding> = vec![("b", "Build")];
        if let Some(true) = self.is_runnable {
            bindings.push(("r", "Run"));
        }
        if let Some(true) = self.is_testable {
            bindings.push(("t", "Test"));
        }
        bindings.push(("q", "Close"));
        assert(binding_views(bindings@) =~= detail_bindings(self.is_runnable, self.is_testable));
        self.bindings = bindings;
    }

    /// The drawing of the window, with its inside divided into `sections`.
    pub fn draw(&self, area: Rect, sections: &Vec<Rect>) -> (r: Vec<Piece>)
        requires
            sections@.len() == 2,
        ensures
            piece_views(r@) == self@.scene(area, sections@),
    {
        let (text, style, alignment) = match &self.text {
            RuleText::Loading => (
                "Loading…".to_owned(),
                colored(Color::DarkGray),
                Alignment::Center,
            ),
            RuleText::Loaded(text) => (text.clone(), plain(), Alignment::Left),
            RuleText::Error(error) => (error.clone(), colored(Color::Red), Alignment::Left),
        };
        let pieces = vec![
            Piece::Frame { area, title: "Rule Detail".to_owned(), border: colored(Color::Blue) },
            Piece::Paragraph {
                area: sections[0],
                content: Content::Raw(text),
                style,
                alignment,
                scroll: 0,
            },
            render_bindings_line(&self.bindings, sections[1]),
        ];
        assert(piece_views(pieces@) =~= self@.scene(area, sections@));
        pieces
    }

    /// A drawing of the window in `area`.
    pub fn render(&self, area: Rect) -> (r: Vec<Piece>)
        ensures
            self@.drawn(area, piece_views(r@)),
    {
        let sections = divide_modal(area);
        self.draw(area, &sections)
    }
}

/// How far a command has got.
#[derive(Debug)]
pub enum RunStatus {
    Running,
    Exited(Option<i32>),
    SpawnFailed(String),
}

/// What the state of a command holds.
pub enum RunStatusView {
    Running,
    Exited(Option<i32>),
    SpawnFailed(Text),
}

impl View for RunStatus {
    type V = RunStatusView;

    open spec fn view(&self) -> RunStatusView {
        match self {
            RunStatus::Running => RunStatusView::Running,
            RunStatus::Exited(code) => RunStatusView::Exited(*code),
            RunStatus::SpawnFailed(error) => RunStatusView::SpawnFailed(error@),
        }
    }
}

/// The window that shows the output of a command.
#[derive(Debug)]
pub struct RunOutputModal {
    pub title: String,
    pub lines: Vec<String>,
    pub status: RunStatus,
    pub scroll: u16,
    pub follow_tail: bool,
    pub bindings: Vec<Binding>,
}

/// What the window that shows the output of a command holds.
pub struct RunModel {
    pub title: Text,
    pub lines: Seq<Text>,
    pub status: RunStatusView,
    pub scroll: u16,
    pub follow_tail: bool,
    pub bindings: Seq<(Text, Text)>,
}

impl View for RunOutputModal {
    type V = RunModel;

    open spec fn view(&self) -> RunModel {
        RunModel {
            title: self.title@,
            lines: texts(self.lines@),
            status: self.status@,
            scroll: self.scroll,
            follow_tail: self.follow_tail,
            bindings: binding_views(self.bindings@),
        }
    }
}

/// The line that tells how a command ended, once it has.
pub open spec fn status_line(status: RunStatusView) -> Option<SpanView> {
    match status {
        RunStatusView::Running => None,
        RunStatusView::Exited(Some(code)) => Some(
            SpanView {
                text: "--- exited ("@ + decimal(code as int) + ") ---"@,
                style: color_style(
                    if code == 0 {
                        Color::Green
                    } else {
                        Color::Red
                    },
                ),
            },
        ),
        RunStatusView::Exited(None) => Some(
            SpanView { text: "--- exited ---"@, style: color_style(Color::Yellow) },
        ),
        RunStatusView::SpawnFailed(error) => Some(
            SpanView {
                text: "--- failed to spawn: "@ + error + " ---"@,
                style: color_style(Color::Red),
            },
        ),
    }
}

/// A count as far as scrolling can count it.
pub open spec fn scroll_count(n: int) -> u16 {
    (n % 0x1_0000) as u16
}

impl RunModel {
    /// The window of a command that has just started.
    pub open spec fn opened(title: Text) -> RunModel {
        RunModel {
            title,
            lines: Seq::empty(),
            status: RunStatusView::Running,
            scroll: 0,
            follow_tail: true,
            bindings: seq![
                ("↑↓/jk/C-u/C-d/PgUp/PgDn"@, "Scroll"@),
                ("G"@, "Tail"@),
                ("q"@, "Close"@),
            ],
        }
    }

    /// The window after a report of the command.
    pub open spec fn updated(self, update: RunUpdateView) -> RunModel {
        match update {
            RunUpdateView::Line(line) => RunModel { lines: self.lines.push(line), ..self },
            RunUpdateView::Exited(code) => RunModel {
                status: RunStatusView::Exited(code),
                ..self
            },
            RunUpdateView::SpawnFailed(error) => RunModel {
                status: RunStatusView::SpawnFailed(error),
                ..self
            },
        }
    }

    /// How far down the keys scroll: to the last line of the output.
    pub open spec fn last_scroll(self) -> u16 {
        if self.lines.len() > 0 {
            scroll_count(self.lines.len() - 1)
        } else {
            0
        }
    }

    /// The text `by` lines further down, but no further than its last line.
    pub open spec fn scrolled_down(self, by: int) -> RunModel {
        let scroll = if self.scroll + by <= self.last_scroll() {
            (self.scroll + by) as u16
        } else {
            self.last_scroll()
        };
        RunModel { scroll, follow_tail: false, ..self }
    }

    /// The text `by` lines further up, but no further than its first line.
    pub open spec fn scrolled_up(self, by: int) -> RunModel {
        let scroll = if self.scroll >= by {
            (self.scroll - by) as u16
        } else {
            0
        };
        RunModel { scroll, follow_tail: false, ..self }
    }

    /// The window after a key, if the key means something to it. Scrolling by hand
    /// leaves the tail of the output; `G` goes back to it.
    pub open spec fn after_key(self, key: KeyEvent) -> Option<RunModel> {
        match key_move(key) {
            Some(Move::Down) => Some(self.scrolled_down(1)),
            Some(Move::Up) => Some(self.scrolled_up(1)),
            Some(Move::PageDown) => Some(self.scrolled_down(PAGE as int)),
            Some(Move::PageUp) => Some(self.scrolled_up(PAGE as int)),
            None => if key.code == KeyCode::Char('G') {
                Some(RunModel { follow_tail: true, ..self })
            } else {
                None
            },
        }
    }

    /// The lines of the window: the output and how the command ended.
    pub open spec fn text_lines(self) -> Seq<TextLineView> {
        let output = self.lines.map_values(
            |line: Text| TextLineView::Styled(SpanView { text: line, style: plain_style() }),
        );
        match status_line(self.status) {
            Some(line) => output.push(TextLineView::Styled(line)),
            None => output,
        }
    }

    /// How far down a window of the given height goes.
    pub open spec fn tail_scroll(self, height: u16) -> u16 {
        let total = scroll_count(self.text_lines().len() as int);
        if total >= height {
            (total - height) as u16
        } else {
            0
        }
    }

    /// The window as it is drawn with the given height: at the tail if it follows
    /// the tail, and never beyond it.
    pub open spec fn settled(self, height: u16) -> RunModel {
        let tail = self.tail_scroll(height);
        RunModel {
            scroll: if self.follow_tail || self.scroll > tail {
                tail
            } else {
                self.scroll
            },
            ..self
        }
    }

    /// The drawing of the window, with its inside divided into `sections`.
    pub open spec fn scene(self, area: Rect, sections: Seq<Rect>) -> Seq<PieceView> {
        seq![
            PieceView::Frame { area, title: self.title, border: color_style(Color::Blue) },
            PieceView::Paragraph {
                area: sections[0],
                content: ContentView::Lines(self.text_lines()),
                style: plain_style(),
                alignment: Alignment::Left,
                scroll: self.scroll,
            },
            bindings_piece(self.bindings, sections[1]),
        ]
    }

    /// `after` is the window once it is drawn in `area`, and `pieces` are the
    /// drawing.
    pub open spec fn drawn(self, area: Rect, after: RunModel, pieces: Seq<PieceView>) -> bool {
        exists|sections: Seq<Rect>|
            {
                &&& #[trigger] modal_sections(area, sections)
                &&& after == self.settled(sections[0].height)
                &&& pieces == after.scene(area, sections)
            }
    }
}

/// A count as far as scrolling can count it.
fn count(n: usize) -> (r: u16)
    ensures
        r == scroll_count(n as int),
{
    assert((n as u16) == n % 0x1_0000usize) by (bit_vector);
    #[verifier::truncate]
    (n as u16)
}

impl RunOutputModal {
    /// The window of a command that has just started.
    pub fn new(title: String) -> (r: Self)
        ensures
            r@ == RunModel::opened(title@),
    {
        let bindings: Vec<Binding> = vec![
            ("↑↓/jk/C-u/C-d/PgUp/PgDn", "Scroll"),
            ("G", "Tail"),
            ("q", "Close"),
        ];
        let lines: Vec<String> = Vec::new();
        assert(binding_views(bindings@) =~= RunModel::opened(title@).bindings);
        assert(texts(lines@) =~= Seq::empty());
        RunOutputModal {
            title,
            lines,
            status: RunStatus::Running,
            scroll: 0,
            follow_tail: true,
            bindings,
        }
    }

    /// Takes a report of the command.
    pub fn apply_update(&mut self, update: RunUpdate)
        ensures
            final(self)@ == old(self)@.updated(update@),
    {
        match update {
            RunUpdate::Line(line) => {
                let ghost before = texts(self.lines@);
                let ghost text = line@;
                self.lines.push(line);
                assert(texts(self.lines@) =~= before.push(text));
            },
            RunUpdate::Exited(code) => {
                self.status = RunStatus::Exited(code);
            },
            RunUpdate::SpawnFailed(error) => {
                self.status = RunStatus::SpawnFailed(error);
            },
        }
    }

    /// Scrolls down by `lines`, and leaves the tail.
    fn scroll_down(&mut self, lines: u16)
        ensures
            final(self)@ == old(self)@.scrolled_down(lines as int),
    {
        let max_scroll: u16 = count(self.lines.len().saturating_sub(1));
        assert(texts(self.lines@).len() == self.lines@.len());
        let target: u16 = self.scroll.saturating_add(lines);
        self.scroll = if target <= max_scroll {
            target
        } else {
            max_scroll
        };
        self.follow_tail = false;
    }

    /// Scrolls up by `lines`, and leaves the tail.
    fn scroll_up(&mut self, lines: u16)
        ensures
            final(self)@ == old(self)@.scrolled_up(lines as int),
    {
        self.scroll = self.scroll.saturating_sub(lines);
        self.follow_tail = false;
    }

    /// Scrolls if the key does so. Returns whether it means something here.
    pub fn handle_key(&mut self, key: KeyEvent) -> (r: bool)
        ensures
            match old(self)@.after_key(key) {
                Some(after) => r && final(self)@ == after,
                None => !r && *final(self) == *old(self),
            },
    {
        match move_of(key) {
            Some(Move::Down) => {
                self.scroll_down(1);
                true
            },
            Some(Move::Up) => {
                self.scroll_up(1);
                true
            },
            Some(Move::PageDown) => {
                self.scroll_down(20);
                true
            },
            Some(Move::PageUp) => {
                self.scroll_up(20);
                true
            },
            None => if let KeyCode::Char('G') = key.code {
                self.follow_tail = true;
                true
            } else {
                false
            },
        }
    }

    /// The line that tells how the command ended, once it has.
    fn status_span(&self) -> (r: Option<Span>)
        ensures
            match r {
                Some(span) => status_line(self@.status) == Some(span@),
                None => status_line(self@.status) is None,
            },
    {
        match &self.status {
            RunStatus::Running => None,
            RunStatus::Exited(Some(code)) => {
                let mut text = "--- exited (".to_owned();
                text.append(decimal_string(*code).as_str());
                text.append(") ---");
                let color = if *code == 0 {
                    Color::Green
                } else {
                    Color::Red
                };
                Some(Span { text, style: colored(color) })
            },
            RunStatus::Exited(None) => Some(
                Span { text: "--- exited ---".to_owned(), style: colored(Color::Yellow) },
            ),
            RunStatus::SpawnFailed(error) => {
                let mut text = "--- failed to spawn: ".to_owned();
                text.append(error.as_str());
                text.append(" ---");
                Some(Span { text, style: colored(Color::Red) })
            },
        }
    }

    /// The lines of the window: the output and how the command ended.
    fn lines_to_draw(&self) -> (r: Vec<TextLine>)
        ensures
            line_views(r@) == self@.text_lines(),
    {
        let ghost as_line = |line: Text|
            TextLineView::Styled(SpanView { text: line, style: plain_style() });
        let ghost output = texts(self.lines@).map_values(as_line);
        let mut lines: Vec<TextLine> = Vec::new();
        for i in 0..self.lines.len()
            invariant
                as_line == (|line: Text|
                    TextLineView::Styled(SpanView { text: line, style: plain_style() })),
                output == texts(self.lines@).map_values(as_line),
                line_views(lines@) == output.take(i as int),
        {
            let ghost before = line_views(lines@);
            lines.push(TextLine::Styled(Span { text: self.lines[i].clone(), style: plain() }));
            assert(output.take(i + 1) =~= output.take(i as int).push(output[i as int]));
            assert(line_views(lines@) =~= before.push(output[i as int]));
        }
        assert(output.take(self.lines@.len() as int) =~= output);
        if let Some(span) = self.status_span() {
            let ghost line = span@;
            lines.push(TextLine::Styled(span));
            assert(line_views(lines@) =~= output.push(TextLineView::Styled(line)));
        }
        lines
    }

    /// The drawing of the window, with its inside divided into `sections`, to whose
    /// height the scrolling is fitted.
    pub fn draw(&mut self, area: Rect, sections: &Vec<Rect>) -> (r: Vec<Piece>)
        requires
            sections@.len() == 2,
        ensures
            final(self)@ == old(self)@.settled(sections@[0].height),
            piece_views(r@) == final(self)@.scene(area, sections@),
    {
        let lines = self.lines_to_draw();
        assert(line_views(lines@).len() == lines@.len());
        let total: u16 = count(lines.len());
        let max_scroll: u16 = total.saturating_sub(sections[0].height);
        if self.follow_tail {
            self.scroll = max_scroll;
        } else if self.scroll > max_scroll {
            self.scroll = max_scroll;
        }
        let pieces = vec![
            Piece::Frame { area, title: self.title.clone(), border: colored(Color::Blue) },
            Piece::Paragraph {
                area: sections[0],
                content: Content::Lines(lines),
                style: plain(),
                alignment: Alignment::Left,
                scroll: self.scroll,
            },
            render_bindings_line(&self.bindings, sections[1]),
        ];
        assert(self@.text_lines() == old(self)@.text_lines());
        assert(piece_views(pieces@) =~= self@.scene(area, sections@));
        pieces
    }

    /// A drawing of the window in `area`.
    pub fn render(&mut self, area: Rect) -> (r: Vec<Piece>)
        ensures
            old(self)@.drawn(area, final(self)@, piece_views(r@)),
    {
        let sections = divide_modal(area);
        self.draw(area, &sections)
    }
}

} // verus!
