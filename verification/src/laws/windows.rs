//! What is seen in the window of a rule and in the window of a command.

use vstd::prelude::*;

use crate::bazel::{DetailUpdateView, RunUpdateView};
use crate::key::{KeyCode, KeyEvent};
use crate::list_view::{binding_views, bindings_piece};
use crate::modal::{
    DetailModel, RuleContentModal, RuleText, RuleTextView, RunModel, RunOutputModal, RunStatus,
    RunStatusView, modal_sections, scroll_count,
};
use crate::scene::{
    Alignment, Color, Constraint, ContentView, Direction, PieceView, Rect, SpanView, TextLineView,
    inside, may_split, plain_style,
};
use crate::text::{Text, decimal, texts};

verus! {

/// What is said of the window of a rule is said of what it holds.
pub proof fn rule_window_is_what_it_holds(modal: RuleContentModal, text: RuleText)
    ensures
        modal@.text == modal.text@,
        modal@.is_runnable == modal.is_runnable,
        modal@.is_testable == modal.is_testable,
        modal@.bindings == binding_views(modal.bindings@),
        text@ == match text {
            RuleText::Loading => RuleTextView::Loading,
            RuleText::Loaded(text) => RuleTextView::Loaded(text@),
            RuleText::Error(error) => RuleTextView::Error(error@),
        },
{
}

/// What is said of the window of a command is said of what it holds.
pub proof fn output_window_is_what_it_holds(modal: RunOutputModal, status: RunStatus)
    ensures
        modal@.title == modal.title@,
        modal@.lines == texts(modal.lines@),
        modal@.status == modal.status@,
        modal@.scroll == modal.scroll,
        modal@.follow_tail == modal.follow_tail,
        modal@.bindings == binding_views(modal.bindings@),
        status@ == match status {
            RunStatus::Running => RunStatusView::Running,
            RunStatus::Exited(code) => RunStatusView::Exited(code),
            RunStatus::SpawnFailed(error) => RunStatusView::SpawnFailed(error@),
        },
{
}

/// Nothing is known of a rule at first. An answer is kept as it is, and leaves the others
/// alone.
pub proof fn answers_are_kept_as_they_are(detail: DetailModel, text: Text, value: bool)
    ensures
        DetailModel::opened().text == RuleTextView::Loading,
        DetailModel::opened().is_runnable is None,
        DetailModel::opened().is_testable is None,
        detail.updated(DetailUpdateView::Text(Ok(text))).text == RuleTextView::Loaded(text),
        detail.updated(DetailUpdateView::Text(Ok(text))).is_runnable == detail.is_runnable,
        detail.updated(DetailUpdateView::Text(Ok(text))).is_testable == detail.is_testable,
        detail.updated(DetailUpdateView::Text(Err(text))).text == RuleTextView::Error(text),
        detail.updated(DetailUpdateView::Text(Err(text))).is_runnable == detail.is_runnable,
        detail.updated(DetailUpdateView::Text(Err(text))).is_testable == detail.is_testable,
        detail.updated(DetailUpdateView::Runnable(value)).is_runnable == Some(value),
        detail.updated(DetailUpdateView::Runnable(value)).is_testable == detail.is_testable,
        detail.updated(DetailUpdateView::Runnable(value)).text == detail.text,
        detail.updated(DetailUpdateView::Testable(value)).is_testable == Some(value),
        detail.updated(DetailUpdateView::Testable(value)).is_runnable == detail.is_runnable,
        detail.updated(DetailUpdateView::Testable(value)).text == detail.text,
{
}

/// The window of a rule tells of building, of running and testing if it is known that the rule
/// can be, and of closing, in this order.
pub proof fn rule_window_tells_what_can_be_done(detail: DetailModel)
    requires
        detail.wf(),
    ensures
        ({
            let runs = detail.is_runnable == Some(true);
            let tests = detail.is_testable == Some(true);
            &&& detail.bindings[0] == ("b"@, "Build"@)
            &&& runs ==> detail.bindings[1] == ("r"@, "Run"@)
            &&& tests ==> detail.bindings[detail.bindings.len() - 2] == ("t"@, "Test"@)
            &&& detail.bindings[detail.bindings.len() - 1] == ("q"@, "Close"@)
            &&& detail.bindings.len() == 2 + (if runs {
                1int
            } else {
                0
            }) + (if tests {
                1int
            } else {
                0
            })
        }),
{
}

/// The definition that an answer gave is drawn whole and as it is, whatever was in the window
/// before, and so is an error, which is red.
pub proof fn definition_is_drawn_whole(
    detail: DetailModel,
    text: Text,
    area: Rect,
    sections: Seq<Rect>,
)
    requires
        sections.len() == 2,
    ensures
        detail.updated(DetailUpdateView::Text(Ok(text))).scene(area, sections)[1] == (
        PieceView::Paragraph {
            area: sections[0],
            content: ContentView::Raw(text),
            style: plain_style(),
            alignment: Alignment::Left,
            scroll: 0,
        }),
        ({
            let piece = detail.updated(DetailUpdateView::Text(Err(text))).scene(area, sections)[1];
            &&& piece is Paragraph
            &&& piece->Paragraph_area == sections[0]
            &&& piece->Paragraph_content == ContentView::Raw(text)
            &&& piece->Paragraph_style.fg == Some(Color::Red)
            &&& !piece->Paragraph_style.bold && !piece->Paragraph_style.dim
            &&& piece->Paragraph_style.bg is None
            &&& piece->Paragraph_alignment == Alignment::Left
            &&& piece->scroll == 0
        }),
{
}

/// What is drawn of the definition is what the window holds of it, whatever else it holds.
pub proof fn definition_is_drawn_as_it_is_held(
    detail: DetailModel,
    area: Rect,
    sections: Seq<Rect>,
)
    requires
        sections.len() == 2,
    ensures
        detail.scene(area, sections)[1]->Paragraph_area == sections[0],
        detail.scene(area, sections)[1]->scroll == 0,
        detail.scene(area, sections)[1]->Paragraph_content == ContentView::Raw(
            match detail.text {
                RuleTextView::Loading => "Loading…"@,
                RuleTextView::Loaded(text) => text,
                RuleTextView::Error(error) => error,
            },
        ),
{
}

/// Until the definition is there the window says that it is on its way. Answers of other
/// kinds do not change what is drawn of the definition.
pub proof fn definition_is_on_its_way(
    detail: DetailModel,
    value: bool,
    area: Rect,
    sections: Seq<Rect>,
)
    requires
        sections.len() == 2,
    ensures
        ({
            let piece = DetailModel::opened().scene(area, sections)[1];
            &&& piece is Paragraph
            &&& piece->Paragraph_area == sections[0]
            &&& piece->Paragraph_content == ContentView::Raw("Loading…"@)
            &&& piece->Paragraph_style.fg == Some(Color::DarkGray)
            &&& !piece->Paragraph_style.bold && !piece->Paragraph_style.dim
            &&& piece->Paragraph_style.bg is None
            &&& piece->Paragraph_alignment == Alignment::Center
            &&& piece->scroll == 0
        }),
        detail.updated(DetailUpdateView::Runnable(value)).scene(area, sections)[1] == detail.scene(
            area,
            sections,
        )[1],
        detail.updated(DetailUpdateView::Testable(value)).scene(area, sections)[1] == detail.scene(
            area,
            sections,
        )[1],
{
}

/// The window of a rule is drawn as a frame, the definition and the bindings, and nothing
/// else.
pub proof fn rule_window_is_drawn_whole(detail: DetailModel, area: Rect, sections: Seq<Rect>)
    requires
        sections.len() == 2,
    ensures
        detail.scene(area, sections).len() == 3,
        detail.scene(area, sections)[0] is Frame,
        detail.scene(area, sections)[0]->Frame_area == area,
        detail.scene(area, sections)[0]->title == "Rule Detail"@,
        detail.scene(area, sections)[0]->border.fg == Some(Color::Blue),
        !detail.scene(area, sections)[0]->border.bold && !detail.scene(
            area,
            sections,
        )[0]->border.dim && detail.scene(area, sections)[0]->border.bg is None,
        detail.scene(area, sections)[1] is Paragraph,
        detail.scene(area, sections)[2] == bindings_piece(detail.bindings, sections[1]),
{
}

/// The inside of a window is divided into the room for its text and a line for its bindings.
pub proof fn windows_are_divided_into_text_and_a_line(area: Rect, sections: Seq<Rect>)
    requires
        modal_sections(area, sections),
    ensures
        sections.len() == 2,
        may_split(
            Direction::Vertical,
            seq![Constraint::Min(0), Constraint::Length(1)],
            inside(area, 1),
            sections,
        ),
{
}

/// A drawing of the window of a rule is one of what it holds.
pub proof fn rule_window_is_drawn_in_its_sections(
    detail: DetailModel,
    area: Rect,
    pieces: Seq<PieceView>,
) -> (sections: Seq<Rect>)
    requires
        detail.drawn(area, pieces),
    ensures
        modal_sections(area, sections),
        pieces == detail.scene(area, sections),
{
    choose|sections: Seq<Rect>| #[trigger]
        modal_sections(area, sections) && pieces == detail.scene(area, sections)
}

/// A drawing of the window of a command is one of what it holds, scrolled to fit the room for
/// its text.
pub proof fn output_window_is_drawn_in_its_sections(
    output: RunModel,
    area: Rect,
    after: RunModel,
    pieces: Seq<PieceView>,
) -> (sections: Seq<Rect>)
    requires
        output.drawn(area, after, pieces),
    ensures
        modal_sections(area, sections),
        pieces == after.scene(area, sections),
        after == output.settled(sections[0].height),
{
    choose|sections: Seq<Rect>|
        {
            &&& #[trigger] modal_sections(area, sections)
            &&& after == output.settled(sections[0].height)
            &&& pieces == after.scene(area, sections)
        }
}

/// The window of a command is empty at first, and follows the tail of what is to come.
pub proof fn output_window_starts_empty(title: Text)
    ensures
        RunModel::opened(title).title == title,
        RunModel::opened(title).lines == Seq::<Text>::empty(),
        RunModel::opened(title).status == RunStatusView::Running,
        RunModel::opened(title).scroll == 0,
        RunModel::opened(title).follow_tail,
        RunModel::opened(title).bindings == seq![
            ("↑↓/jk/C-u/C-d/PgUp/PgDn"@, "Scroll"@),
            ("G"@, "Tail"@),
            ("q"@, "Close"@),
        ],
{
}

/// A line that is reported comes last, and the end of the command is noted. Nothing else
/// changes.
pub proof fn reports_are_kept_as_they_are(
    output: RunModel,
    line: Text,
    code: Option<i32>,
    error: Text,
)
    ensures
        output.updated(RunUpdateView::Line(line)) == (RunModel {
            lines: output.lines.push(line),
            ..output
        }),
        output.updated(RunUpdateView::Exited(code)) == (RunModel {
            status: RunStatusView::Exited(code),
            ..output
        }),
        output.updated(RunUpdateView::SpawnFailed(error)) == (RunModel {
            status: RunStatusView::SpawnFailed(error),
            ..output
        }),
{
}

/// The text of the window has the lines of the output, each as it is and in its place, and
/// after them, once the command has ended, one more line.
pub proof fn output_is_drawn_line_by_line(output: RunModel, i: int)
    ensures
        0 <= i < output.lines.len() ==> output.text_lines()[i] == TextLineView::Styled(
            SpanView { text: output.lines[i], style: plain_style() },
        ),
        output.status is Running ==> output.text_lines().len() == output.lines.len(),
        !(output.status is Running) ==> output.text_lines().len() == output.lines.len() + 1,
        !(output.status is Running) ==> output.text_lines()[output.lines.len() as int] is Styled,
{
}

/// The last line tells how the command ended: its exit code, which is good or bad, that it has
/// none, or why it did not start.
pub proof fn last_line_tells_how_the_command_ended(output: RunModel)
    ensures
        ({
            let last = output.text_lines()[output.lines.len() as int]->Styled_0;
            match output.status {
                RunStatusView::Running => true,
                RunStatusView::Exited(Some(code)) => {
                    &&& last.text == "--- exited ("@ + decimal(code as int) + ") ---"@
                    &&& code == 0 ==> last.style.fg == Some(Color::Green)
                    &&& code != 0 ==> last.style.fg == Some(Color::Red)
                },
                RunStatusView::Exited(None) => last.text == "--- exited ---"@ && last.style.fg
                    == Some(Color::Yellow),
                RunStatusView::SpawnFailed(error) => last.text == "--- failed to spawn: "@ + error
                    + " ---"@ && last.style.fg == Some(Color::Red),
            }
        }),
        !(output.status is Running) ==> {
            let style = (output.text_lines()[output.lines.len() as int]->Styled_0).style;
            !style.bold && !style.dim && style.bg is None
        },
{
}

/// Two windows show the same text only if they hold the same output.
pub proof fn text_shows_what_output_there_is(a: RunModel, b: RunModel)
    requires
        a.text_lines() == b.text_lines(),
        a.status is Running <==> b.status is Running,
    ensures
        a.lines == b.lines,
{
    output_is_drawn_line_by_line(a, 0);
    output_is_drawn_line_by_line(b, 0);
    assert forall|i: int| 0 <= i < a.lines.len() implies a.lines[i] == b.lines[i] by {
        output_is_drawn_line_by_line(a, i);
        output_is_drawn_line_by_line(b, i);
    }
    assert(a.lines =~= b.lines);
}

/// The window of a command is drawn as a frame with its title, its text from the line it is
/// scrolled to, and its bindings, and nothing else.
pub proof fn output_window_is_drawn_whole(output: RunModel, area: Rect, sections: Seq<Rect>)
    requires
        sections.len() == 2,
    ensures
        output.scene(area, sections).len() == 3,
        output.scene(area, sections)[0] is Frame,
        output.scene(area, sections)[0]->Frame_area == area,
        output.scene(area, sections)[0]->title == output.title,
        output.scene(area, sections)[0]->border.fg == Some(Color::Blue),
        !output.scene(area, sections)[0]->border.bold && !output.scene(
            area,
            sections,
        )[0]->border.dim && output.scene(area, sections)[0]->border.bg is None,
        output.scene(area, sections)[1] == (PieceView::Paragraph {
            area: sections[0],
            content: ContentView::Lines(output.text_lines()),
            style: plain_style(),
            alignment: Alignment::Left,
            scroll: output.scroll,
        }),
        output.scene(area, sections)[2] == bindings_piece(output.bindings, sections[1]),
{
}

/// Line counts that fit are counted as they are, and others modulo what fits.
pub proof fn scrolling_counts_lines(n: int)
    ensures
        0 <= n <= u16::MAX ==> scroll_count(n) == n,
        n >= 0 ==> scroll_count(n + 0x1_0000) == scroll_count(n),
{
}

/// Keys scroll by a line or by twenty, to the last line of the output and to the first at the
/// most, and leave the tail. Nothing else changes.
pub proof fn keys_scroll_by_lines_and_pages(output: RunModel, key: KeyEvent)
    ensures
        ({
            let last = if output.lines.len() > 0 {
                (output.lines.len() - 1) % 0x1_0000
            } else {
                0
            };
            let down = if key.code == KeyCode::Down || key.code == KeyCode::Char('j') {
                1int
            } else {
                20
            };
            let up = if key.code == KeyCode::Up || key.code == KeyCode::Char('k') {
                1int
            } else {
                20
            };
            let goes_down = key.code == KeyCode::Down || key.code == KeyCode::Char('j') || key.code
                == KeyCode::PageDown || (key.code == KeyCode::Char('d') && key.control);
            let goes_up = key.code == KeyCode::Up || key.code == KeyCode::Char('k') || key.code
                == KeyCode::PageUp || (key.code == KeyCode::Char('u') && key.control);
            let after = output.after_key(key)->0;
            &&& goes_down ==> output.after_key(key) is Some && !after.follow_tail && after.scroll
                == (if output.scroll + down <= last {
                output.scroll + down
            } else {
                last
            })
            &&& goes_up ==> output.after_key(key) is Some && !after.follow_tail && after.scroll
                == (if output.scroll >= up {
                output.scroll - up
            } else {
                0
            })
            &&& key.code == KeyCode::Char('G') ==> output.after_key(key) == Some(
                RunModel { follow_tail: true, ..output },
            )
            &&& !goes_down && !goes_up && key.code != KeyCode::Char('G') ==> output.after_key(
                key,
            ) is None
            &&& output.after_key(key) is Some ==> after == (RunModel {
                scroll: after.scroll,
                follow_tail: after.follow_tail,
                ..output
            })
        }),
{
}

/// Of any number of lines, and from anywhere, a key that scrolls up gets no further down, one
/// that scrolls down no further than the keys may, and which keys mean something does not
/// depend on the text.
pub proof fn keys_scroll_within_the_text(output: RunModel, other: RunModel, key: KeyEvent)
    ensures
        output.after_key(key) is Some <==> other.after_key(key) is Some,
        output.after_key(key) is Some && (key.code == KeyCode::Down || key.code == KeyCode::Char(
            'j',
        ) || key.code == KeyCode::PageDown) ==> (output.after_key(key)->0).scroll
            <= scroll_count(
            if output.lines.len() > 0 {
                output.lines.len() - 1
            } else {
                0
            },
        ),
        output.after_key(key) is Some && (key.code == KeyCode::Up || key.code == KeyCode::Char('k')
            || key.code == KeyCode::PageUp) ==> (output.after_key(key)->0).scroll
            <= output.scroll,
{
}

/// Where the tail is: as much of the text as has room, up to its last line, is below it.
pub proof fn tail_is_the_end_of_the_text(output: RunModel, height: u16)
    ensures
        ({
            let total = output.text_lines().len() % 0x1_0000;
            &&& output.text_lines().len() <= u16::MAX ==> total == output.text_lines().len()
            &&& total >= height ==> output.tail_scroll(height) + height == total
            &&& total < height ==> output.tail_scroll(height) == 0
        }),
{
}

/// A window is drawn at the tail if it follows it. If not it is drawn where it is, or at the
/// tail if that is further up. Nothing but the scrolling changes.
pub proof fn drawing_fits_the_scrolling(output: RunModel, height: u16)
    ensures
        output.follow_tail ==> output.settled(height).scroll == output.tail_scroll(height),
        !output.follow_tail && output.scroll <= output.tail_scroll(height) ==> output.settled(
            height,
        ).scroll == output.scroll,
        !output.follow_tail && output.scroll > output.tail_scroll(height) ==> output.settled(
            height,
        ).scroll == output.tail_scroll(height),
        output.settled(height) == (RunModel { scroll: output.settled(height).scroll, ..output }),
{
}

} // verus!
