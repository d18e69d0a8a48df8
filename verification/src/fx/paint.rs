//! Painting the selected cells of a buffer, one by one.

use vstd::prelude::*;
use ratatui::layout::{Position, Rect};
use crate::buffer::{cell_index, has_cell, lemma_cell_index_injective};
use crate::cell::CellView;
use crate::fx::dissolve::listed;

verus! {

/// Whether `now` is what painting has made of `before` once the first `k` positions are
/// dealt with: the cell at each of those positions is what `paint` makes of the cell that
/// was there, given the place of the position in the order and the position; every other
/// cell is as it was.
pub open spec fn is_painted_upto(
    before: Seq<CellView>,
    now: Seq<CellView>,
    area: Rect,
    positions: Seq<Position>,
    k: int,
    paint: spec_fn(int, Position, CellView) -> CellView,
) -> bool {
    &&& now.len() == before.len()
    &&& forall|i: int|
        0 <= i < positions.len() ==> now[#[trigger] cell_index(area, positions[i])] == if i < k {
            paint(i, positions[i], before[cell_index(area, positions[i])])
        } else {
            before[cell_index(area, positions[i])]
        }
    &&& forall|j: int|
        0 <= j < before.len() && !listed(area, positions, j) ==> #[trigger] now[j] == before[j]
}

/// Whether `after` is what painting leaves of `before`: the cell at each of the positions
/// is what `paint` makes of the cell that was there; every other cell is as it was.
pub open spec fn is_painted(
    before: Seq<CellView>,
    after: Seq<CellView>,
    area: Rect,
    positions: Seq<Position>,
    paint: spec_fn(int, Position, CellView) -> CellView,
) -> bool {
    is_painted_upto(before, after, area, positions, positions.len() as int, paint)
}

/// Painting the `k`-th position keeps what painting has done so far.
pub proof fn lemma_paint_step(
    before: Seq<CellView>,
    prev: Seq<CellView>,
    now: Seq<CellView>,
    area: Rect,
    positions: Seq<Position>,
    k: int,
    paint: spec_fn(int, Position, CellView) -> CellView,
)
    requires
        0 <= k < positions.len(),
        forall|i: int|
            0 <= i < positions.len() ==> has_cell(before.len(), area, #[trigger] positions[i]),
        forall|i: int, j: int| 0 <= i < j < positions.len() ==> positions[i] != positions[j],
        is_painted_upto(before, prev, area, positions, k, paint),
        now == prev.update(
            cell_index(area, positions[k]),
            paint(k, positions[k], prev[cell_index(area, positions[k])]),
        ),
    ensures
        is_painted_upto(before, now, area, positions, k + 1, paint),
        prev[cell_index(area, positions[k])] == before[cell_index(area, positions[k])],
{
    let p = positions[k];
    assert(has_cell(before.len(), area, p));
    assert forall|i: int| 0 <= i < positions.len() implies now[#[trigger] cell_index(
        area,
        positions[i],
    )] == if i < k + 1 {
        paint(i, positions[i], before[cell_index(area, positions[i])])
    } else {
        before[cell_index(area, positions[i])]
    } by {
        assert(has_cell(before.len(), area, positions[i]));
        if i != k {
            if cell_index(area, positions[i]) == cell_index(area, p) {
                lemma_cell_index_injective(area, positions[i], p);
            }
        }
    }
    assert(listed(area, positions, cell_index(area, positions[k])));
}

} // verus!
