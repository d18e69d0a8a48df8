//! An effect that reduces the colors to the palette of 256.

use vstd::prelude::*;
use crate::shader::{stepped, paints_cells};
use crate::effect_span::{millis_of, EffectSpan};
use crate::shader_view::{capped, lasting};
use ratatui::buffer::Buffer;
use ratatui::layout::{Position, Rect};
use crate::buffer::{buffer_area, buffer_cells, cell_of, has_cell, put_cell};
use crate::cell::{Cell, CellView};
use crate::cell_filter::CellFilter;
use crate::cell_iter::{is_selection, region_rank, CellIterator};
use crate::color_ext::{as_indexed_color, indexed_color};
use crate::duration::Duration;
use crate::fx::paint::{is_painted, is_painted_upto, lemma_paint_step};
use crate::geometry::intersection_of;
use crate::shader::{reset_to, rewinds, same_frame, step_holds};
use crate::shader_view::{same_timing, ShaderView};

verus! {

/// A cell with both its colors replaced by colors of the palette of 256.
pub open spec fn indexed_cell(cell: CellView) -> CellView {
    CellView { fg: indexed_color(cell.fg), bg: indexed_color(cell.bg), ..cell }
}

/// What the reduction makes of each cell.
pub open spec fn indexed_paint() -> spec_fn(int, Position, CellView) -> CellView {
    |k: int, p: Position, c: CellView| indexed_cell(c)
}

/// Replaces the colors of every cell of its area by the nearest colors of the palette of
/// 256, on every frame. It has no timer and is never done.
#[derive(Clone, Copy, Debug)]
pub struct Ansi256 {
    area: Option<Rect>,
}

impl Ansi256 {
    /// The state of the shader.
    pub closed spec fn model(self) -> ShaderView {
        ShaderView::Ansi256 { area: self.area }
    }

    /// A reduction of the area that the shader is given.
    pub fn new() -> (shader: Ansi256)
        ensures
            shader.model() == (ShaderView::Ansi256 { area: None }),
    {
        Ansi256 { area: None }
    }

    /// The name of the shader.
    pub fn name(&self) -> (name: &'static str)
        ensures
            name@ == self.model().name(),
    {
        "term256_colors"
    }

    /// Reduces the colors of the cells of `area` that the buffer has, and hands nothing
    /// back.
    pub fn process(&mut self, duration: Duration, buf: &mut Buffer, area: Rect) -> (overflow:
        Option<Duration>)
        ensures
            paints_cells(final(self).model(), area, *old(buf), *final(buf)),
            stepped(
                old(self).model(),
                duration,
                final(self).model(),
                area,
                *old(buf),
                *final(buf),
            ),
            overflow is None,
            final(self).model() == old(self).model(),
            step_holds(
                old(self).model(),
                duration,
                final(self).model(),
                overflow,
                *old(buf),
                *final(buf),
            ),
            exists|positions: Seq<Position>|
                is_selection(
                    positions,
                    buffer_cells(*old(buf)),
                    buffer_area(*old(buf)),
                    area,
                    None,
                ) && #[trigger] is_painted(
                    buffer_cells(*old(buf)),
                    buffer_cells(*final(buf)),
                    buffer_area(*old(buf)),
                    positions,
                    indexed_paint(),
                ),
    {
        proof {
            reveal(stepped);
        }
        let iter = CellIterator::new(buf, area, None);
        let ghost before = buffer_cells(*buf);
        let ghost frame = buffer_area(*buf);
        let ghost positions = iter.positions();
        let ghost paint = indexed_paint();
        proof {
            let region = intersection_of(area, frame);
            assert forall|j: int, k: int| 0 <= j < k < positions.len() implies positions[j]
                != positions[k] by {
                assert(region_rank(region, positions[j]) < region_rank(region, positions[k]));
            }
        }
        let n = iter.len();
        let mut k: usize = 0;
        while k < n
            invariant
                0 <= k <= n,
                n == positions.len(),
                positions == iter.positions(),
                paint == indexed_paint(),
                buffer_area(*buf) == frame,
                forall|i: int| 0 <= i < n ==> has_cell(before.len(), frame, #[trigger] positions[i]),
                forall|i: int, j: int| 0 <= i < j < n ==> positions[i] != positions[j],
                is_painted_upto(before, buffer_cells(*buf), frame, positions, k as int, paint),
            decreases n - k,
        {
            let p = iter.position(k);
            let ghost prev = buffer_cells(*buf);
            assert(has_cell(before.len(), frame, positions[k as int]));
            if let Some(cell) = cell_of(buf, p) {
                let mut c = cell;
                c.set_fg(as_indexed_color(c.fg));
                c.set_bg(as_indexed_color(c.bg));
                put_cell(buf, p, &c);
            }
            proof {
                lemma_paint_step(before, prev, buffer_cells(*buf), frame, positions, k as int, paint);
            }
            k = k + 1;
        }
        proof {
            assert(is_painted(before, buffer_cells(*buf), frame, positions, paint));
        }
        None
    }

    /// The reduction is never done.
    pub fn done(&self) -> (r: bool)
        ensures
            !r,
            r == self.model().is_done(),
    {
        false
    }

    /// The reduction has no end, so it is not without length.
    pub fn is_instant(&self) -> (r: bool)
        ensures
            r == self.model().instant(),
    {
        false
    }

    /// The reduction has no start to go back to: nothing changes.
    pub fn reset(&mut self)
        ensures
            final(self).model() == old(self).model(),
            rewinds(old(self).model(), final(self).model()),
    {
        proof {
            reveal(reset_to);
        }
    }

    /// The reduction is the same both ways: nothing changes.
    pub fn reverse(&mut self)
        ensures
            final(self).model() == old(self).model().reversed(),
            same_timing(old(self).model(), final(self).model()),
            final(self).model().area() == old(self).model().area(),
            final(self).model().filter() == old(self).model().filter(),
    {
    }

    /// The area that the shader works in instead of the area that it is given.
    pub fn area(&self) -> (area: Option<Rect>)
        ensures
            area == self.model().area(),
    {
        self.area
    }

    /// Makes the shader work in `area`.
    pub fn set_area(&mut self, area: Rect)
        ensures
            final(self).model() == old(self).model().with_area(area),
            same_timing(old(self).model(), final(self).model()),
    {
        self.area = Some(area)
    }

    /// The reduction takes every cell of its area.
    pub fn cell_selection(&self) -> (filter: Option<CellFilter>)
        ensures
            filter is None,
            self.model().filter() is None,
    {
        None
    }

    /// The reduction takes every cell of its area: nothing changes.
    pub fn set_cell_selection(&mut self, filter: CellFilter)
        ensures
            final(self).model() == old(self).model().with_filter(filter@),
            same_timing(old(self).model(), final(self).model()),
    {
    }
}

impl Default for Ansi256 {
    fn default() -> (shader: Ansi256)
        ensures
            shader.model() == (ShaderView::Ansi256 { area: None }),
    {
        Ansi256::new()
    }
}

impl Ansi256 {
    /// The shader does not paint by alpha.
    pub proof fn lemma_paints_by_code(self)
        ensures
            !self.model().paints_by_alpha(),
    {
    }

    /// The shader keeps no timer that its user may change.
    pub proof fn lemma_keeps_no_timer(self)
        ensures
            self.model().own_timer() is None,
    {
    }

    /// The reduction has no end.
    pub fn total_duration(&self) -> (d: Option<Duration>)
        ensures
            d is None,
            millis_of(d) == capped(self.model().duration()),
            self.model().timer() == lasting(capped(self.model().duration())),
    {
        None
    }

    /// The course of the shader in time, the shader starting at `offset`.
    pub fn as_effect_span(&self, offset: Duration) -> (span: EffectSpan)
        ensures
            span.model() == self.model().span(offset.millis()),
    {
        EffectSpan::leaf(self.name(), offset, self.total_duration())
    }
}

} // verus!
