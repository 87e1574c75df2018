//! Rectangles of terminal cells and how they are divided.
use ratatui::layout::{Constraint as TuiConstraint, Direction, Layout, Rect as TuiRect};
use ratatui::widgets::{Block, Borders};
use vstd::prelude::*;

verus! {

/// A rectangle of terminal cells.
#[derive(Clone, Copy, Debug, PartialEq, Eq, Structural)]
pub struct Rect {
    pub x: u16,
    pub y: u16,
    pub width: u16,
    pub height: u16,
}

/// The direction along which an area is divided.
#[derive(Clone, Copy, Debug, PartialEq, Eq, Structural)]
pub enum Axis {
    Horizontal,
    Vertical,
}

/// What one part of a divided area asks for.
#[derive(Clone, Copy, Debug, PartialEq, Eq, Structural)]
pub enum Constraint {
    Percentage(u16),
    Length(u16),
    Min(u16),
    Fill(u16),
}

/// The sides of a block on which a border is drawn.
#[derive(Clone, Copy, Debug, PartialEq, Eq, Structural)]
pub struct Sides {
    pub top: bool,
    pub right: bool,
    pub bottom: bool,
    pub left: bool,
}

/// The sum of two coordinates, capped at the largest coordinate.
pub open spec fn capped_sum(a: int, b: int) -> int {
    if a + b > u16::MAX {
        u16::MAX as int
    } else {
        a + b
    }
}

/// The difference of two lengths, floored at zero.
pub open spec fn floored_difference(a: int, b: int) -> int {
    if a < b {
        0
    } else {
        a - b
    }
}

/// The lesser of two numbers.
pub open spec fn lesser(a: int, b: int) -> int {
    if a < b {
        a
    } else {
        b
    }
}

/// The greater of two numbers.
pub open spec fn greater(a: int, b: int) -> int {
    if a < b {
        b
    } else {
        a
    }
}

impl Rect {
    /// The first coordinate that the rectangle covers along `axis`.
    pub open spec fn start(self, axis: Axis) -> int {
        match axis {
            Axis::Horizontal => self.x as int,
            Axis::Vertical => self.y as int,
        }
    }

    /// How many cells the rectangle covers along `axis`.
    pub open spec fn size(self, axis: Axis) -> int {
        match axis {
            Axis::Horizontal => self.width as int,
            Axis::Vertical => self.height as int,
        }
    }

    /// The first coordinate behind the rectangle along `axis`.
    pub open spec fn end(self, axis: Axis) -> int {
        capped_sum(self.start(axis), self.size(axis))
    }

    /// How many cells of the coordinate range the rectangle covers along `axis`.
    pub open spec fn extent(self, axis: Axis) -> int {
        self.end(axis) - self.start(axis)
    }

    /// The coordinate and the size across `axis`.
    pub open spec fn cross(self, axis: Axis) -> (u16, u16) {
        match axis {
            Axis::Horizontal => (self.y, self.height),
            Axis::Vertical => (self.x, self.width),
        }
    }

    /// Whether no coordinate of the rectangle exceeds the coordinate range.
    pub open spec fn in_range(self) -> bool {
        self.x + self.width <= u16::MAX && self.y + self.height <= u16::MAX
    }

    /// The rectangle without `margin` columns on its left and as many on its right: the empty
    /// rectangle at the origin where they do not fit.
    pub open spec fn without_margin(self, margin: u16) -> Rect {
        let doubled = capped_sum(margin as int, margin as int);
        if self.width < doubled {
            Rect { x: 0, y: 0, width: 0, height: 0 }
        } else {
            Rect {
                x: capped_sum(self.x as int, margin as int) as u16,
                y: self.y,
                width: (self.width - doubled) as u16,
                height: self.height,
            }
        }
    }

    /// What the rectangle leaves to its content inside a border on `sides`.
    pub open spec fn inside(self, sides: Sides) -> Rect {
        let columns = (if sides.left { 1int } else { 0 }) + (if sides.right { 1int } else { 0 });
        let rows = (if sides.top { 1int } else { 0 }) + (if sides.bottom { 1int } else { 0 });
        Rect {
            x: if sides.left {
                lesser(capped_sum(self.x as int, 1), self.end(Axis::Horizontal)) as u16
            } else {
                self.x
            },
            y: if sides.top {
                lesser(capped_sum(self.y as int, 1), self.end(Axis::Vertical)) as u16
            } else {
                self.y
            },
            width: floored_difference(self.width as int, columns) as u16,
            height: floored_difference(self.height as int, rows) as u16,
        }
    }
}

/// Whether every constraint is a fixed length.
pub open spec fn all_lengths(constraints: Seq<Constraint>) -> bool {
    forall|i: int| 0 <= i < constraints.len() ==> (#[trigger] constraints[i]) is Length
}

/// The sum of fixed lengths.
pub open spec fn total_length(constraints: Seq<Constraint>) -> int
    decreases constraints.len(),
{
    if constraints.len() == 0 {
        0
    } else {
        total_length(constraints.drop_last()) + constraints.last()->Length_0
    }
}

/// Whether a part spans `whole` across the axis and lies within it along the axis.
pub open spec fn lies_in(part: Rect, whole: Rect, axis: Axis) -> bool {
    &&& part.cross(axis) == whole.cross(axis)
    &&& whole.start(axis) <= part.start(axis)
    &&& part.start(axis) + part.size(axis) <= whole.end(axis)
}

/// Whether parts have the fixed lengths that they ask for, one behind the other from the start.
pub open spec fn stacked(
    parts: Seq<Rect>,
    constraints: Seq<Constraint>,
    whole: Rect,
    axis: Axis,
) -> bool {
    forall|i: int|
        0 <= i < parts.len() ==> {
            &&& (#[trigger] parts[i]).size(axis) == constraints[i]->Length_0
            &&& parts[i].start(axis) == whole.start(axis) + total_length(constraints.take(i))
        }
}

/// Whether each part ends before or where every later part starts.
pub open spec fn in_order(parts: Seq<Rect>, axis: Axis) -> bool {
    forall|i: int, j: int|
        0 <= i < j < parts.len() ==> (#[trigger] parts[i]).start(axis) + parts[i].size(axis) <= (
        #[trigger] parts[j]).start(axis)
}

/// Where the `i`th third of `extent` cells starts, rounded to a whole cell.
pub open spec fn third(i: int, extent: int) -> int {
    (2 * i * extent + 3) / 6
}

/// Whether every constraint is a fixed length that an equal share of three does not exceed.
pub open spec fn no_less_than_a_third(constraints: Seq<Constraint>, extent: int) -> bool {
    &&& constraints.len() == 3
    &&& forall|i: int|
        0 <= i < 3 ==> (#[trigger] constraints[i]) is Length && extent <= 3
            * constraints[i]->Length_0
}

/// Whether three parts are equal shares of the whole, rounded to whole cells.
pub open spec fn in_thirds(parts: Seq<Rect>, whole: Rect, axis: Axis) -> bool {
    forall|i: int|
        0 <= i < 3 ==> {
            &&& (#[trigger] parts[i]).start(axis) == whole.start(axis) + third(
                i,
                whole.extent(axis),
            )
            &&& parts[i].start(axis) + parts[i].size(axis) == whole.start(axis) + third(
                i + 1,
                whole.extent(axis),
            )
        }
}

/// What a part takes of `extent` cells that has a hundred times the share of the other part:
/// rounded to hundredths of a cell, and these to a whole cell.
pub open spec fn hundredfold_part(extent: int) -> int {
    ((20000 * extent + 101) / 202 + 50) / 100
}

/// Whether two parts share the whole without a gap.
pub open spec fn shared(parts: Seq<Rect>, whole: Rect, axis: Axis) -> bool {
    &&& parts[0].start(axis) == whole.start(axis)
    &&& parts[0].start(axis) + parts[0].size(axis) == parts[1].start(axis)
    &&& parts[1].start(axis) + parts[1].size(axis) == whole.end(axis)
}

/// Whether the second of two parts takes `wanted` cells at the end, or all there are where that is
/// less, and the first part takes the rest.
pub open spec fn second_takes(parts: Seq<Rect>, wanted: int, whole: Rect, axis: Axis) -> bool {
    &&& parts[1].size(axis) == lesser(wanted, whole.extent(axis))
    &&& shared(parts, whole, axis)
}

/// Divides `area`, less `margin` columns on either side, along `axis`: one rectangle for each
/// constraint.
///
/// Trusted: `ratatui::layout::Layout::split`. Every part spans the area across the axis and lies
/// within it along the axis. Up to three fixed lengths do not overlap and keep their order, and
/// where they fit they are given exactly, one behind the other from the start of the area. Where
/// none of three is shorter than a third of the area, nothing outranks the wish for equal parts,
/// and they are thirds, rounded to whole cells. A length outranks a percentage: beside a part that
/// asks for the whole, it is given its length, or the whole area where that is shorter, and stands
/// at the end. A minimum outranks a part that fills, whose number is how many times the other's
/// share it takes: unless that leaves more than the minimum, the minimum is given exactly, or the
/// whole area where that is shorter, and the rest is filled. Where a part that fills a hundredfold
/// leaves more than the minimum, the two share the area as a hundred to one, without a gap. How
/// other constraints share the area is left open: the solver walks tables with a random seed, and
/// the crate calls some results indeterminate. That parts keep clear of each other is no
/// requirement to the solver, but a wish stronger than that of a length, a percentage or a single
/// minimum.
#[verifier::external_body]
pub(crate) fn split(axis: Axis, constraints: &[Constraint], margin: u16, area: Rect) -> (parts: Vec<
    Rect,
>)
    ensures
        parts@.len() == constraints@.len(),
        forall|i: int|
            0 <= i < parts@.len() ==> lies_in(
                #[trigger] parts@[i],
                area.without_margin(margin),
                axis,
            ),
        constraints@.len() <= 3 && all_lengths(constraints@) ==> in_order(parts@, axis),
        constraints@.len() <= 3 && all_lengths(constraints@) && total_length(constraints@)
            <= area.without_margin(margin).extent(axis) ==> stacked(
            parts@,
            constraints@,
            area.without_margin(margin),
            axis,
        ),
        no_less_than_a_third(constraints@, area.without_margin(margin).extent(axis)) ==> in_thirds(
            parts@,
            area.without_margin(margin),
            axis,
        ),
        constraints@.len() == 2 && constraints@[0] == Constraint::Percentage(100)
            && constraints@[1] is Length ==> second_takes(
            parts@,
            constraints@[1]->Length_0 as int,
            area.without_margin(margin),
            axis,
        ),
        constraints@.len() == 2 && constraints@[0] is Fill && constraints@[1] is Min
            && constraints@[1]->Min_0 <= i16::MAX && area.without_margin(margin).extent(axis)
            <= constraints@[1]->Min_0 + constraints@[0]->Fill_0 * constraints@[1]->Min_0
            ==> second_takes(
            parts@,
            constraints@[1]->Min_0 as int,
            area.without_margin(margin),
            axis,
        ),
        constraints@.len() == 2 && constraints@[0] == Constraint::Fill(100) && constraints@[1] is Min
            && constraints@[1]->Min_0 <= i16::MAX && area.without_margin(margin).extent(axis) > 101
            * constraints@[1]->Min_0 ==> shared(parts@, area.without_margin(margin), axis)
            && parts@[0].size(axis) == hundredfold_part(area.without_margin(margin).extent(axis)),
{
    let direction = match axis {
        Axis::Horizontal => Direction::Horizontal,
        Axis::Vertical => Direction::Vertical,
    };
    let sizes = constraints.iter().map(|constraint| match *constraint {
        Constraint::Percentage(n) => TuiConstraint::Percentage(n),
        Constraint::Length(n) => TuiConstraint::Length(n),
        Constraint::Min(n) => TuiConstraint::Min(n),
        Constraint::Fill(n) => TuiConstraint::Fill(n),
    });
    let layout = Layout::new(direction, sizes).horizontal_margin(margin);
    let whole = TuiRect { x: area.x, y: area.y, width: area.width, height: area.height };
    let parts = layout.split(whole);
    parts.iter().map(|r| Rect { x: r.x, y: r.y, width: r.width, height: r.height }).collect()
}

/// The part of `area` inside a block that has a border on `sides` and neither title nor padding.
///
/// Trusted: `ratatui::widgets::Block::inner`. Each border takes one row or column; a border in
/// front also moves the content by one, but never past the end of the area.
#[verifier::external_body]
pub(crate) fn block_inner(sides: Sides, area: Rect) -> (inner: Rect)
    ensures
        inner == area.inside(sides),
{
    let mut borders = Borders::NONE;
    borders.set(Borders::TOP, sides.top);
    borders.set(Borders::RIGHT, sides.right);
    borders.set(Borders::BOTTOM, sides.bottom);
    borders.set(Borders::LEFT, sides.left);
    let whole = TuiRect { x: area.x, y: area.y, width: area.width, height: area.height };
    let r = Block::default().borders(borders).inner(whole);
    Rect { x: r.x, y: r.y, width: r.width, height: r.height }
}

/// The lesser and the greater of two numbers are among them and bound them. What is lost or gained
/// beyond the coordinate range, or below zero, is cut off.
pub proof fn law_numbers_are_bounded(a: int, b: int)
    ensures
        lesser(a, b) <= a && lesser(a, b) <= b && (lesser(a, b) == a || lesser(a, b) == b),
        greater(a, b) >= a && greater(a, b) >= b && (greater(a, b) == a || greater(a, b) == b),
        lesser(a, b) + greater(a, b) == a + b,
        a >= b ==> floored_difference(a, b) + b == a,
        a <= b ==> floored_difference(a, b) == 0,
        a + b <= u16::MAX ==> capped_sum(a, b) == a + b,
        a + b >= u16::MAX ==> capped_sum(a, b) == u16::MAX,
{
}

/// A margin leaves the middle: as much is taken on the left as on the right, and nothing above or
/// below. Where it does not fit, nothing is left.
pub proof fn law_margin_leaves_the_middle(area: Rect, margin: u16)
    requires
        area.in_range(),
    ensures
        ({
            let middle = area.without_margin(margin);
            &&& 2 * margin <= area.width ==> {
                &&& middle.x == area.x + margin
                &&& middle.x + middle.width + margin == area.x + area.width
                &&& middle.y == area.y && middle.height == area.height
            }
            &&& 2 * margin > area.width && area.width < u16::MAX ==> middle.width == 0
                && middle.height == 0
        }),
{
}

/// A border takes one row or column on each of its sides, where the area has one, and leaves the
/// content between.
pub proof fn law_border_encloses_content(area: Rect, sides: Sides)
    requires
        area.in_range(),
        area.width >= 2,
        area.height >= 2,
    ensures
        ({
            let inner = area.inside(sides);
            &&& inner.x == if sides.left { area.x + 1 } else { area.x as int }
            &&& inner.y == if sides.top { area.y + 1 } else { area.y as int }
            &&& area.x + area.width - (inner.x + inner.width) == if sides.right {
                1int
            } else {
                0
            }
            &&& area.y + area.height - (inner.y + inner.height) == if sides.bottom {
                1int
            } else {
                0
            }
        }),
{
}

/// Along an axis, a rectangle in the coordinate range goes from its start over its size to its end.
pub proof fn law_axes_are_columns_and_rows(area: Rect)
    requires
        area.in_range(),
    ensures
        area.start(Axis::Horizontal) == area.x && area.start(Axis::Vertical) == area.y,
        area.size(Axis::Horizontal) == area.width && area.size(Axis::Vertical) == area.height,
        area.end(Axis::Horizontal) == area.x + area.width,
        area.end(Axis::Vertical) == area.y + area.height,
        area.extent(Axis::Horizontal) == area.width,
        area.extent(Axis::Vertical) == area.height,
        area.cross(Axis::Horizontal) == (area.y, area.height),
        area.cross(Axis::Vertical) == (area.x, area.width),
{
}

/// Thirds follow each other from nothing to all, and each starts at the cell nearest to its share. A
/// hundredfold part takes a hundred cells to one, to within one cell.
pub proof fn law_shares_are_rounded(extent: int)
    requires
        extent >= 0,
    ensures
        third(0, extent) == 0,
        -3 < 6 * third(1, extent) - 2 * extent < 3,
        -3 < 6 * third(2, extent) - 4 * extent < 3,
        third(3, extent) == extent,
        -101 < 101 * hundredfold_part(extent) - 100 * extent < 101,
{
    assert(2 * 0 * extent == 0) by (nonlinear_arith);
    assert(2 * 1 * extent == 2 * extent) by (nonlinear_arith);
    assert(2 * 2 * extent == 4 * extent) by (nonlinear_arith);
    assert(2 * 3 * extent == 6 * extent) by (nonlinear_arith);
}

} // verus!
