//! What the screen is drawn as.

use vstd::prelude::*;

use crate::list_view::ListModel;
use crate::modal::RunModel;
use crate::scene::{
    Alignment, Constraint, ContentView, Direction, PieceView, Rect, Style, ViewId, lies_within,
    may_split,
};
use crate::ui::{
    MainModel, ModalModel, divided, is_centered, middle, pane_constraints, screen_constraints,
};

verus! {

/// What lies within an area does not go beyond any of its four sides.
pub proof fn sides_are_not_crossed(part: Rect, area: Rect)
    ensures
        lies_within(part, area) <==> area.x <= part.x && area.y <= part.y && part.x + part.width
            <= area.x + area.width && part.y + part.height <= area.y + area.height,
{
}

/// The parts of an area: one for each share, within the area, and from side to side.
pub proof fn parts_go_from_side_to_side(
    direction: Direction,
    constraints: Seq<Constraint>,
    area: Rect,
    parts: Seq<Rect>,
    i: int,
)
    requires
        divided(direction, constraints, area, parts),
    ensures
        may_split(direction, constraints, area, parts),
        parts.len() == constraints.len(),
        0 <= i < parts.len() ==> lies_within(parts[i], area),
        0 <= i < parts.len() && direction == Direction::Horizontal ==> parts[i].y == area.y
            && parts[i].height == area.height,
        0 <= i < parts.len() && direction == Direction::Vertical ==> parts[i].x == area.x
            && parts[i].width == area.width,
{
}

/// The middle of an area is its share of the height, cut to its share of the width, with what
/// is left halved between the sides.
pub proof fn middle_is_cut_by_height_and_width(
    percent_x: u16,
    percent_y: u16,
    container: Rect,
    r: Rect,
) -> (parts: (Seq<Rect>, Seq<Rect>))
    requires
        is_centered(percent_x, percent_y, container, r),
        percent_x <= 100,
        percent_y <= 100,
    ensures
        may_split(
            Direction::Vertical,
            seq![
                Constraint::Percentage(((100 - percent_y) / 2) as u16),
                Constraint::Percentage(percent_y),
                Constraint::Percentage(((100 - percent_y) / 2) as u16),
            ],
            container,
            parts.0,
        ),
        may_split(
            Direction::Horizontal,
            seq![
                Constraint::Percentage(((100 - percent_x) / 2) as u16),
                Constraint::Percentage(percent_x),
                Constraint::Percentage(((100 - percent_x) / 2) as u16),
            ],
            parts.0[1],
            parts.1,
        ),
        parts.0.len() == 3 && parts.1.len() == 3,
        r == parts.1[1],
{
    choose|rows: Seq<Rect>, columns: Seq<Rect>|
        {
            &&& #[trigger] divided(Direction::Vertical, middle(percent_y), container, rows)
            &&& #[trigger] divided(Direction::Horizontal, middle(percent_x), rows[1], columns)
            &&& r == columns[1]
        }
}

/// The title of the screen has the package shown, in bold.
pub proof fn title_has_the_package(view: MainModel, area: Rect)
    ensures
        view.title_piece(area) is Boxed,
        view.title_piece(area)->Boxed_area == area,
        view.title_piece(area)->Boxed_content == ContentView::Raw(
            "bzlui - //"@ + view.app.package(),
        ),
        view.title_piece(area)->Boxed_style == (Style {
            fg: None,
            bg: None,
            bold: true,
            dim: false,
        }),
        view.title_piece(area)->Boxed_alignment == Alignment::Left,
{
}

/// The screen is drawn as its title, in three lines at its top, and then its body in what is
/// left.
pub proof fn screen_is_title_and_body(
    view: MainModel,
    area: Rect,
    after: MainModel,
    pieces: Seq<PieceView>,
) -> (r: (Seq<Rect>, Seq<PieceView>))
    requires
        view.drawn(area, after, pieces),
    ensures
        may_split(
            Direction::Vertical,
            seq![Constraint::Length(3), Constraint::Length(0), Constraint::Min(1)],
            area,
            r.0,
        ),
        r.0.len() == 3,
        pieces.len() == 1 + r.1.len(),
        pieces[0] == view.title_piece(r.0[0]),
        pieces.skip(1) == r.1,
        view.body_drawn(r.0[2], after, r.1),
{
    let (parts, body) = choose|parts: Seq<Rect>, body: Seq<PieceView>|
        {
            &&& #[trigger] divided(Direction::Vertical, screen_constraints(), area, parts)
            &&& #[trigger] view.body_drawn(parts[2], after, body)
            &&& pieces == seq![view.title_piece(parts[0])] + body
        };
    assert(pieces.skip(1) =~= body);
    (parts, body)
}

/// The parts of a drawing of the body of the screen: the areas of the lists, the lists once
/// they are drawn, their drawings, and what is drawn over them.
pub struct BodyParts {
    pub panes: Seq<Rect>,
    pub packages: ListModel,
    pub packages_pieces: Seq<PieceView>,
    pub rules: ListModel,
    pub rules_pieces: Seq<PieceView>,
    pub over: Seq<PieceView>,
}

/// The body of the screen is drawn as the sub-packages in three tenths of it, the rules in the
/// rest, and what is over both of them. The lists are drawn with the focus that they have.
pub proof fn body_is_lists_and_window(
    view: MainModel,
    area: Rect,
    after: MainModel,
    pieces: Seq<PieceView>,
) -> (r: BodyParts)
    requires
        view.wf(),
        view.body_drawn(area, after, pieces),
    ensures
        may_split(
            Direction::Horizontal,
            seq![Constraint::Percentage(30), Constraint::Percentage(70)],
            area,
            r.panes,
        ),
        r.panes.len() == 2,
        pieces == r.packages_pieces + r.rules_pieces + r.over,
        view.packages.drawn(
            view.active == ViewId::Packages && !view.modal_open,
            r.panes[0],
            r.packages,
            r.packages_pieces,
        ),
        view.rules.drawn(
            view.active == ViewId::Rules && !view.modal_open,
            r.panes[1],
            r.rules,
            r.rules_pieces,
        ),
        (MainModel { packages: r.packages, rules: r.rules, ..view }).modal_drawn(
            area,
            after,
            r.over,
        ),
{
    let (panes, packages_after, packages, rules_after, rules, modal) = choose|
        panes: Seq<Rect>,
        packages_after: ListModel,
        packages: Seq<PieceView>,
        rules_after: ListModel,
        rules: Seq<PieceView>,
        modal: Seq<PieceView>,
    |
        {
            &&& divided(Direction::Horizontal, pane_constraints(), area, panes)
            &&& #[trigger] view.packages.drawn(
                view.packages.focused(view.active, view.modal_open),
                panes[0],
                packages_after,
                packages,
            )
            &&& #[trigger] view.rules.drawn(
                view.rules.focused(view.active, view.modal_open),
                panes[1],
                rules_after,
                rules,
            )
            &&& #[trigger] (MainModel {
                packages: packages_after,
                rules: rules_after,
                ..view
            }).modal_drawn(area, after, modal)
            &&& pieces == packages + rules + modal
        };
    BodyParts {
        panes,
        packages: packages_after,
        packages_pieces: packages,
        rules: rules_after,
        rules_pieces: rules,
        over: modal,
    }
}

/// Without a window nothing is drawn over the lists, and nothing changes.
pub proof fn nothing_is_drawn_over_the_lists(
    view: MainModel,
    area: Rect,
    after: MainModel,
    pieces: Seq<PieceView>,
)
    requires
        view.modals.len() == 0,
        view.modal_drawn(area, after, pieces),
    ensures
        pieces.len() == 0,
        after == view,
{
}

/// The window on top is drawn over four fifths of the lists, of what was there before nothing
/// is seen, and no other window is drawn.
pub proof fn window_is_drawn_over_the_lists(
    view: MainModel,
    area: Rect,
    after: MainModel,
    pieces: Seq<PieceView>,
) -> (window: Rect)
    requires
        view.modals.len() > 0,
        view.modal_drawn(area, after, pieces),
    ensures
        is_centered(80, 80, area, window),
        pieces.len() > 0,
        pieces[0] == (PieceView::Clear { area: window }),
        match view.modals[view.modals.len() - 1] {
            ModalModel::RuleDetail(detail) => after == view && detail.drawn(window, pieces.skip(1)),
            ModalModel::RunOutput(output) => exists|settled: RunModel|
                {
                    &&& #[trigger] output.drawn(window, settled, pieces.skip(1))
                    &&& after.modals == view.modals.update(
                        view.modals.len() - 1,
                        ModalModel::RunOutput(settled),
                    )
                    &&& after == (MainModel { modals: after.modals, ..view })
                },
        },
{
    let (window, top) = choose|window: Rect, top: Seq<PieceView>|
        {
            &&& is_centered(80, 80, area, window)
            &&& #[trigger] view.top_drawn(window, after, top)
            &&& pieces == seq![PieceView::Clear { area: window }] + top
        };
    assert(pieces.skip(1) =~= top);
    if let ModalModel::RunOutput(output) = view.modals[view.modals.len() - 1] {
        let settled = choose|settled: RunModel|
            {
                &&& #[trigger] output.drawn(window, settled, top)
                &&& after == (MainModel {
                    modals: view.modals.drop_last().push(ModalModel::RunOutput(settled)),
                    ..view
                })
            };
        assert(output.drawn(window, settled, pieces.skip(1)));
        assert(after.modals =~= view.modals.update(
            view.modals.len() - 1,
            ModalModel::RunOutput(settled),
        ));
    }
    window
}

} // verus!
