//! Screen geometry: where the popups of the table view go.

use vstd::prelude::*;

verus! {

/// A rectangle of terminal cells.
#[derive(Debug, Clone, Copy, PartialEq, Eq, Structural)]
pub struct Area {
    pub x: u16,
    pub y: u16,
    pub width: u16,
    pub height: u16,
}

/// The direction in which an area is cut.
#[derive(Debug, Clone, Copy, PartialEq, Eq, Structural)]
pub enum Axis {
    /// Into rows, top to bottom.
    Vertical,
    /// Into columns, left to right.
    Horizontal,
}

/// What the terminal layout solver makes of cutting `area` along `axis` into
/// parts of the given percentages.
pub uninterp spec fn percentage_split(area: Area, axis: Axis, percents: Seq<u16>) -> Seq<Area>;

/// The part `part` lies within `area`: across the cut it spans `area` exactly,
/// along the cut it starts and ends inside it.
pub open spec fn lies_within(part: Area, area: Area, axis: Axis) -> bool {
    &&& axis == Axis::Vertical ==> part.x == area.x && part.width == area.width
    &&& axis == Axis::Horizontal ==> part.y == area.y && part.height == area.height
    &&& area.x <= part.x && part.x + part.width <= area.x + area.width
    &&& area.y <= part.y && part.y + part.height <= area.y + area.height
}

/// Cuts `area` along `axis` into three parts of the given percentages, a band
/// between two equal margins that leave no more than the whole, with
/// ratatui's `Layout::split`. The parts are named `percentage_split`. The
/// contract also claims what `Layout::split` shows in its source: one part per
/// percentage; each part spans the area across the cut and, as the solver
/// keeps every segment edge between the area's edges (the far edge saturating
/// at the largest coordinate, and edges rounded to whole cells), lies within
/// the area along the cut. The sizes the solver picks are left to the name.
#[verifier::external_body]
fn split_by_percentages(area: Area, axis: Axis, percents: &Vec<u16>) -> (r: Vec<Area>)
    requires
        percents@.len() == 3,
        percents@[0] == percents@[2],
        2 * percents@[0] + percents@[1] <= 100,
    ensures
        r@ == percentage_split(area, axis, percents@),
        r@.len() == percents@.len(),
        forall|k: int| 0 <= k < r@.len() ==> lies_within(#[trigger] r@[k], area, axis),
{
    let rect = ratatui::layout::Rect { x: area.x, y: area.y, width: area.width, height: area.height };
    let direction = match axis {
        Axis::Vertical => ratatui::layout::Direction::Vertical,
        Axis::Horizontal => ratatui::layout::Direction::Horizontal,
    };
    let constraints = percents.iter().map(|p| ratatui::layout::Constraint::Percentage(*p));
    let parts = ratatui::layout::Layout::default().direction(direction).constraints(constraints).split(rect);
    parts.iter().map(|r| Area { x: r.x, y: r.y, width: r.width, height: r.height }).collect()
}

/// The three percentages that centre a band of `percent`.
pub open spec fn centring(percent: u16) -> Seq<u16> {
    let side = ((100 - percent) / 2) as u16;
    seq![side, percent, side]
}

fn centring_exec(percent: u16) -> (v: Vec<u16>)
    requires
        percent <= 100,
    ensures
        v@ == centring(percent),
{
    let side = (100 - percent) / 2;
    let mut v: Vec<u16> = Vec::new();
    v.push(side);
    v.push(percent);
    v.push(side);
    v
}

/// The area of `percent_x` by `percent_y` percent in the middle of `r`: the
/// middle row of a vertical cut, then the middle column of that row. It lies
/// within `r`.
pub fn centered_rect(percent_x: u16, percent_y: u16, r: Area) -> (c: Area)
    requires
        percent_x <= 100,
        percent_y <= 100,
    ensures
        c == percentage_split(
            percentage_split(r, Axis::Vertical, centring(percent_y))[1],
            Axis::Horizontal,
            centring(percent_x),
        )[1],
        r.x <= c.x && c.x + c.width <= r.x + r.width && r.y <= c.y && c.y + c.height <= r.y + r.height,
{
    let rows = split_by_percentages(r, Axis::Vertical, &centring_exec(percent_y));
    let middle = rows[1];
    let columns = split_by_percentages(middle, Axis::Horizontal, &centring_exec(percent_x));
    columns[1]
}

} // verus!
