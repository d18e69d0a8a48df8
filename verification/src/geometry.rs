//! Rectangles, positions and offsets on the cell grid.
//!
//! The types are those of `ratatui`; this module states what the operations on them
//! compute, in terms that the rest of the library's contracts can use.

use vstd::prelude::*;
use ratatui::layout::{Margin, Offset, Position, Rect, Size};

verus! {

/// `ratatui::layout::Rect`, a rectangle of cells: its corner and its size. Its fields are
/// public and are read as they are.
#[verifier::external_type_specification]
pub struct ExRect(Rect);

/// `ratatui::layout::Position`, a position in the grid: column and row. Its fields are
/// public and are read as they are.
#[verifier::external_type_specification]
pub struct ExPosition(Position);

/// `ratatui::layout::Offset`, a signed distance: columns and rows. Its fields are
/// public and are read as they are.
#[verifier::external_type_specification]
pub struct ExOffset(Offset);

/// `ratatui::layout::Margin`, a margin: columns at each side, rows at top and bottom.
/// Its fields are public and are read as they are.
#[verifier::external_type_specification]
pub struct ExMargin(Margin);

/// `ratatui::layout::Size`, a size: columns and rows. Its fields are
/// public and are read as they are.
#[verifier::external_type_specification]
pub struct ExSize(Size);

/// The sum of two coordinates, capped at the largest coordinate.
pub open spec fn capped_sum(a: u16, b: u16) -> u16 {
    if a + b > u16::MAX {
        u16::MAX
    } else {
        (a + b) as u16
    }
}

/// The difference of two coordinates, or zero where the second is the larger.
pub open spec fn capped_diff(a: u16, b: u16) -> u16 {
    if a < b {
        0
    } else {
        (a - b) as u16
    }
}

/// The first column to the right of the rectangle.
pub open spec fn right_of(r: Rect) -> u16 {
    capped_sum(r.x, r.width)
}

/// The first row below the rectangle.
pub open spec fn bottom_of(r: Rect) -> u16 {
    capped_sum(r.y, r.height)
}

/// Whether the position lies in the rectangle.
pub open spec fn contains_position(r: Rect, p: Position) -> bool {
    r.x <= p.x < right_of(r) && r.y <= p.y < bottom_of(r)
}

/// The rectangle that two rectangles have in common; it has no width or no height where
/// they do not meet.
pub open spec fn intersection_of(a: Rect, b: Rect) -> Rect {
    let x1 = if a.x >= b.x { a.x } else { b.x };
    let y1 = if a.y >= b.y { a.y } else { b.y };
    let x2 = if right_of(a) <= right_of(b) { right_of(a) } else { right_of(b) };
    let y2 = if bottom_of(a) <= bottom_of(b) { bottom_of(a) } else { bottom_of(b) };
    Rect { x: x1, y: y1, width: capped_diff(x2, x1), height: capped_diff(y2, y1) }
}

/// Twice a margin, capped at the largest coordinate.
pub open spec fn doubled(m: u16) -> u16 {
    capped_sum(m, m)
}

/// The rectangle shrunk by the margin on every side; the empty rectangle at the origin
/// where the margin leaves nothing.
pub open spec fn inner_of(r: Rect, m: Margin) -> Rect {
    if r.width < doubled(m.horizontal) || r.height < doubled(m.vertical) {
        Rect { x: 0, y: 0, width: 0, height: 0 }
    } else {
        Rect {
            x: capped_sum(r.x, m.horizontal),
            y: capped_sum(r.y, m.vertical),
            width: capped_diff(r.width, doubled(m.horizontal)),
            height: capped_diff(r.height, doubled(m.vertical)),
        }
    }
}

/// The number of cells of the rectangle.
pub open spec fn cell_count(r: Rect) -> nat {
    (r.width * r.height) as nat
}

/// The positions of a rectangle with cells, row by row from the top, each row from the
/// left.
pub open spec fn row_major(r: Rect) -> Seq<Position> {
    Seq::new(
        cell_count(r),
        |k: int|
            Position { x: (r.x + k % (r.width as int)) as u16, y: (r.y + k / (r.width as int)) as u16 },
    )
}

/// `Margin`'s `clone`: the same margin.
pub assume_specification[ <Margin as Clone>::clone ](m: &Margin) -> (r: Margin)
    ensures
        r == *m,
;

/// `Rect::intersection`: the common part of two rectangles, with right and bottom edges
/// capped at the largest coordinate.
pub assume_specification[ Rect::intersection ](a: Rect, b: Rect) -> (r: Rect)
    ensures
        r == intersection_of(a, b),
;

/// `Rect::contains`: the position lies at or after the left and top edges and before
/// the capped right and bottom edges.
pub assume_specification[ Rect::contains ](r: Rect, p: Position) -> (b: bool)
    ensures
        b == contains_position(r, p),
;

/// `Rect::inner`: the rectangle shrunk by the margin on every side, or the empty
/// rectangle at the origin where twice the margin exceeds a side.
pub assume_specification[ Rect::inner ](r: Rect, m: Margin) -> (inner: Rect)
    ensures
        inner == inner_of(r, m),
;

/// `Rect::area`: width times height.
pub assume_specification[ Rect::area ](r: Rect) -> (n: u32)
    ensures
        n == cell_count(r),
;

/// `Rect::positions`, collected: every position of the rectangle, row by row.
///
/// The rectangle must have cells and must lie within the coordinate space, so that each
/// of its rows holds `width` positions.
#[verifier::external_body]
pub(crate) fn positions_of(r: Rect) -> (v: Vec<Position>)
    requires
        r.width > 0,
        r.height > 0,
        r.x + r.width <= u16::MAX,
        r.y + r.height <= u16::MAX,
    ensures
        v@ == row_major(r),
{
    r.positions().collect()
}

} // verus!
