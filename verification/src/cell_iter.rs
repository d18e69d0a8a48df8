//! The cells of a region that a filter selects, in the order in which effects visit them.

use vstd::prelude::*;
use ratatui::buffer::Buffer;
use ratatui::layout::{Position, Rect};
use crate::buffer::{area_of, buffer_area, buffer_cells, cell_at, cell_of, has_cell};
use crate::cell::CellView;
use crate::cell_filter::{CellFilter, FilterView};
use crate::geometry::{contains_position, intersection_of, positions_of, row_major};

verus! {

/// The place of a position in the row-by-row order of a region.
pub open spec fn region_rank(region: Rect, p: Position) -> int {
    (p.y - region.y) * region.width + (p.x - region.x)
}

/// The verdict of an optional filter, bound to `area`; without a filter every cell of the
/// area is selected.
pub open spec fn selection_verdict(
    filter: Option<FilterView>,
    area: Rect,
    p: Position,
    cell: CellView,
) -> Option<bool> {
    match filter {
        Some(f) => f.accepts(area, p, cell),
        None => Some(contains_position(area, p)),
    }
}

/// Whether `positions` is a selection of the cells of a buffer by a filter bound to
/// `area`.
///
/// A selection lists positions of the part of `area` that the buffer covers, in row-by-row
/// order and each once. It holds no position without a cell and none that the filter
/// rejects, and it holds every position that the filter accepts. Where the filter's
/// verdict is open, the position is in or out as the filter answered.
pub open spec fn is_selection(
    positions: Seq<Position>,
    cells: Seq<CellView>,
    buffer_area: Rect,
    area: Rect,
    filter: Option<FilterView>,
) -> bool {
    let region = intersection_of(area, buffer_area);
    &&& forall|k: int|
        0 <= k < positions.len() ==> {
            let p = #[trigger] positions[k];
            &&& contains_position(region, p)
            &&& cell_at(cells, buffer_area, p) matches Some(c) && selection_verdict(
                filter,
                area,
                p,
                c,
            ) != Some(false)
        }
    &&& forall|j: int, k: int|
        0 <= j < k < positions.len() ==> region_rank(region, #[trigger] positions[j])
            < region_rank(region, #[trigger] positions[k])
    &&& forall|p: Position|
        contains_position(region, p) && (cell_at(cells, buffer_area, p) matches Some(c)
            && selection_verdict(filter, area, p, c) == Some(true))
            ==> #[trigger] positions.contains(p)
}

/// The positions of the cells that an effect may touch, in the order in which it visits
/// them.
pub struct CellIterator {
    positions: Vec<Position>,
}

impl CellIterator {
    /// The positions, in order.
    pub closed spec fn positions(self) -> Seq<Position> {
        self.positions@
    }

    /// Selects the cells of `buf` within `area` that `filter` accepts; all of them where
    /// there is no filter.
    pub fn new(buf: &Buffer, area: Rect, filter: Option<&CellFilter>) -> (iter: CellIterator)
        ensures
            is_selection(
                iter.positions(),
                buffer_cells(*buf),
                buffer_area(*buf),
                area,
                match filter {
                    Some(f) => Some(f@),
                    None => None,
                },
            ),
    {
        let buf_area = area_of(buf);
        let region = area.intersection(buf_area);
        let ghost view: Option<FilterView> = match filter {
            Some(f) => Some(f@),
            None => None,
        };
        let ghost cells = buffer_cells(*buf);
        let mut positions: Vec<Position> = Vec::new();
        if region.width == 0 || region.height == 0 {
            return CellIterator { positions };
        }
        let predicate = match filter {
            Some(f) => Some(f.selector(area)),
            None => None,
        };
        let all = positions_of(region);
        let mut i: usize = 0;
        while i < all.len()
            invariant
                0 <= i <= all@.len(),
                all@ == row_major(region),
                region == intersection_of(area, buf_area),
                region.width > 0,
                region.height > 0,
                buf_area == buffer_area(*buf),
                cells == buffer_cells(*buf),
                view == match filter {
                    Some(f) => Some(f@),
                    None => None,
                },
                match (filter, predicate) {
                    (Some(f), Some(pr)) => pr.filter() == f@ && (f@.resolved(area) matches Some(
                        inner,
                    ) ==> pr.area() == inner),
                    (None, None) => true,
                    _ => false,
                },
                forall|k: int|
                    0 <= k < positions@.len() ==> {
                        let p = #[trigger] positions@[k];
                        &&& contains_position(region, p)
                        &&& region_rank(region, p) < i
                        &&& cell_at(cells, buf_area, p) matches Some(c) && selection_verdict(
                            view,
                            area,
                            p,
                            c,
                        ) != Some(false)
                    },
                forall|j: int, k: int|
                    0 <= j < k < positions@.len() ==> region_rank(region, #[trigger] positions@[j])
                        < region_rank(region, #[trigger] positions@[k]),
                forall|n: int|
                    0 <= n < i && (cell_at(cells, buf_area, all@[n]) matches Some(c)
                        && selection_verdict(view, area, all@[n], c) == Some(true))
                        ==> positions@.contains(#[trigger] all@[n]),
            decreases all@.len() - i,
        {
            let p = all[i];
            proof {
                lemma_row_major_position(region, i as int);
            }
            if let Some(cell) = cell_of(buf, p) {
                let selected = match &predicate {
                    Some(pr) => pr.is_valid(p, &cell),
                    None => true,
                };
                if selected {
                    let ghost before = positions@;
                    positions.push(p);
                    proof {
                        assert(positions@[before.len() as int] == p);
                        assert forall|n: int|
                            0 <= n < i + 1 && (cell_at(cells, buf_area, all@[n]) matches Some(c)
                                && selection_verdict(view, area, all@[n], c) == Some(
                                true,
                            )) implies positions@.contains(#[trigger] all@[n]) by {
                            if n < i {
                                let k = choose|k: int|
                                    0 <= k < before.len() && before[k] == all@[n];
                                assert(positions@[k] == all@[n]);
                            }
                        }
                    }
                }
            }
            i = i + 1;
        }
        proof {
            assert forall|p: Position|
                contains_position(region, p) && (cell_at(cells, buf_area, p) matches Some(c)
                    && selection_verdict(view, area, p, c) == Some(
                    true,
                )) implies #[trigger] positions@.contains(p) by {
                lemma_position_in_row_major(region, p);
                let n = region_rank(region, p);
                assert(all@[n] == p);
            }
        }
        CellIterator { positions }
    }

    /// The number of selected cells.
    pub fn len(&self) -> (n: usize)
        ensures
            n == self.positions().len(),
    {
        self.positions.len()
    }

    /// The position of the `k`-th selected cell.
    pub fn position(&self, k: usize) -> (p: Position)
        requires
            k < self.positions().len(),
        ensures
            p == self.positions()[k as int],
    {
        self.positions[k]
    }
}

/// The `n`-th position of a region lies in the region and has the rank `n`.
pub proof fn lemma_row_major_position(region: Rect, n: int)
    requires
        region.width > 0,
        region.x + region.width <= u16::MAX,
        region.y + region.height <= u16::MAX,
        0 <= n < region.width * region.height,
    ensures
        contains_position(region, row_major(region)[n]),
        region_rank(region, row_major(region)[n]) == n,
{
    let w = region.width as int;
    vstd::arithmetic::div_mod::lemma_fundamental_div_mod(n, w);
    assert(0 <= n % w < w);
    assert(0 <= n / w < region.height) by (nonlinear_arith)
        requires
            0 <= n < w * region.height,
            w > 0,
            n == w * (n / w) + n % w,
            0 <= n % w < w,
    ;
    assert((n / w) * w + n % w == n) by (nonlinear_arith)
        requires
            n == w * (n / w) + n % w,
    ;
}

/// A position of a region is the one that its rank names in the region's row-by-row
/// order.
pub proof fn lemma_position_in_row_major(region: Rect, p: Position)
    requires
        region.x + region.width <= u16::MAX,
        region.y + region.height <= u16::MAX,
        contains_position(region, p),
    ensures
        0 <= region_rank(region, p) < region.width * region.height,
        row_major(region)[region_rank(region, p)] == p,
{
    let w = region.width as int;
    let (a, b) = (p.y - region.y, p.x - region.x);
    assert(0 <= a * w + b < w * region.height) by (nonlinear_arith)
        requires
            0 <= a < region.height,
            0 <= b < w,
    ;
    vstd::arithmetic::div_mod::lemma_fundamental_div_mod_converse(a * w + b, w, a, b);
}

} // verus!
