//! An effect that sweeps the cells in from a color.

use vstd::prelude::*;
use crate::shader::{stepped, paints_at, paints_cells};
use crate::effect_span::{millis_of, EffectSpan};
use crate::shader_view::capped;
use ratatui::buffer::Buffer;
use ratatui::layout::{Position, Rect};
use ratatui::style::Color;
use crate::buffer::{buffer_area, buffer_cells, cell_index, cell_of, has_cell, put_cell};
use crate::cell::{Cell, CellView};
use crate::cell_filter::{CellFilter, FilterView};
use crate::cell_iter::{is_selection, region_rank, CellIterator};
use crate::color_ext::{lerp, lerp_color};
use crate::duration::Duration;
use crate::effect_timer::EffectTimer;
use crate::fx::direction::Motion;
use crate::fx::leaf::LeafState;
use crate::fx::paint::{is_painted, is_painted_upto, lemma_paint_step};
use crate::fx::sliding_window_alpha::{window_alpha, SlidingWindowAlpha};
use crate::geometry::{contains_position, intersection_of};
use crate::interpolation::{clamp_alpha, clamped_alpha, ALPHA_ONE};
use crate::shader::{reset_to, rewinds, same_frame, step_holds};
use crate::shader_view::{same_timing, Look, ShaderView};
use crate::simple_rng::SimpleRng;

verus! {

/// A cell that an edge has passed as far as `passed` says: its colors lie that share of
/// the way from `color` to its own.
pub open spec fn swept_cell(cell: CellView, color: Color, passed: u32) -> CellView {
    CellView {
        fg: lerp_color(color, cell.fg, passed),
        bg: lerp_color(color, cell.bg, passed),
        ..cell
    }
}

/// What sweeping at `alpha` makes of each cell.
pub open spec fn sweep_paint(
    direction: Motion,
    area: Rect,
    gradient: u16,
    spread: u16,
    seed: u32,
    color: Color,
    alpha: u32,
) -> spec_fn(int, Position, CellView) -> CellView {
    |k: int, p: Position, c: CellView|
        swept_cell(c, color, window_alpha(direction, area, gradient, spread, seed, alpha, p) as u32)
}

/// The paint of a sweep, from the state of its shader.
pub open spec fn sweep_paint_of(v: ShaderView, area: Rect, alpha: u32) -> spec_fn(
    int,
    Position,
    CellView,
) -> CellView {
    match v {
        ShaderView::Leaf { look: Look::Sweep { direction, gradient, spread, color, rng }, .. } => {
            sweep_paint(direction, area, gradient, spread, rng.state(), color, alpha)
        },
        _ => |k: int, p: Position, c: CellView| c,
    }
}

/// Shows the cells in one color, and lets an edge sweep across the area that gives them
/// their own colors back. In a band behind the edge the colors lie between the two. With
/// a timer that runs backwards the edge sweeps the other way and takes the colors away:
/// that is "sweep out".
pub struct SweepIn {
    state: LeafState,
    direction: Motion,
    gradient_length: u16,
    randomness_extent: u16,
    faded_color: Color,
    lcg: SimpleRng,
}

impl SweepIn {
    /// The state of the shader.
    pub closed spec fn model(self) -> ShaderView {
        self.state.model(
            Look::Sweep {
                direction: self.direction,
                gradient: self.gradient_length,
                spread: self.randomness_extent,
                color: self.faded_color,
                rng: self.lcg,
            },
        )
    }

    /// A sweep in `direction` over the time of `timer`, from the color `faded_color`, with
    /// a band of `gradient_length` cells and lines held back by up to `randomness` cells.
    pub fn new(
        direction: Motion,
        gradient_length: u16,
        randomness: u16,
        faded_color: Color,
        timer: EffectTimer,
    ) -> (shader: SweepIn)
        ensures
            shader.model() == (ShaderView::Leaf {
                timer,
                area: None,
                filter: FilterView::All,
                look: Look::Sweep {
                    direction,
                    gradient: gradient_length,
                    spread: randomness,
                    color: faded_color,
                    rng: SimpleRng::new_spec(0x5eed_1e55),
                },
            }),
    {
        SweepIn {
            state: LeafState::new(timer),
            direction,
            gradient_length,
            randomness_extent: randomness,
            faded_color,
            lcg: SimpleRng::default(),
        }
    }

    /// The name of the shader.
    pub fn name(&self) -> (name: &'static str)
        ensures
            name@ == self.model().name(),
    {
        if self.state.timer().is_reversed() {
            "sweep_out"
        } else {
            "sweep_in"
        }
    }

    /// Advances the timer by `duration` and sweeps the cells at the alpha that it then shows.
    ///
    /// Returns the time left over on the step that completes the timer.
    pub fn process(&mut self, duration: Duration, buf: &mut Buffer, area: Rect) -> (overflow:
        Option<Duration>)
        ensures
            paints_cells(final(self).model(), area, *old(buf), *final(buf)),
            stepped(
                old(self).model(),
                duration,
                final(self).model(),
                area,
                *old(buf),
                *final(buf),
            ),
            step_holds(
                old(self).model(),
                duration,
                final(self).model(),
                overflow,
                *old(buf),
                *final(buf),
            ),
            final(self).model() == (ShaderView::Leaf {
                timer: old(self).model()->Leaf_timer.advanced(duration),
                area: old(self).model()->Leaf_area,
                filter: old(self).model()->filter,
                look: old(self).model()->look,
            }),
            exists|positions: Seq<Position>|
                is_selection(
                    positions,
                    buffer_cells(*old(buf)),
                    buffer_area(*old(buf)),
                    area,
                    Some(old(self).model()->filter),
                ) && #[trigger] is_painted(
                    buffer_cells(*old(buf)),
                    buffer_cells(*final(buf)),
                    buffer_area(*old(buf)),
                    positions,
                    sweep_paint_of(
                        old(self).model(),
                        area,
                        final(self).model()->Leaf_timer.alpha_value() as u32,
                    ),
                ),
    {
        proof {
            reveal(stepped);
        }
        let (overflow, alpha) = self.state.advance(duration);
        self.execute(alpha, area, buf);
        proof {
            let positions = choose|positions: Seq<Position>|
                is_selection(
                    positions,
                    buffer_cells(*old(buf)),
                    buffer_area(*old(buf)),
                    area,
                    Some(self.model()->filter),
                ) && #[trigger] is_painted(
                    buffer_cells(*old(buf)),
                    buffer_cells(*buf),
                    buffer_area(*old(buf)),
                    positions,
                    sweep_paint_of(self.model(), area, alpha),
                );
            assert(is_painted(
                buffer_cells(*old(buf)),
                buffer_cells(*buf),
                buffer_area(*old(buf)),
                positions,
                sweep_paint_of(
                        old(self).model(),
                        area,
                        self.model()->Leaf_timer.alpha_value() as u32,
                    ),
            ));
        }
        overflow
    }

    /// Gives each cell that the filter selects within `area` the colors that it has when the
    /// edge is at `alpha`.
    pub fn execute(&self, alpha: u32, area: Rect, buf: &mut Buffer)
        ensures
            self.model().paints_by_alpha(),
            paints_at(self.model(), clamped_alpha(alpha), area, *old(buf), *final(buf)),
            same_frame(*old(buf), *final(buf)),
            exists|positions: Seq<Position>|
                is_selection(
                    positions,
                    buffer_cells(*old(buf)),
                    buffer_area(*old(buf)),
                    area,
                    Some(self.model()->filter),
                ) && #[trigger] is_painted(
                    buffer_cells(*old(buf)),
                    buffer_cells(*final(buf)),
                    buffer_area(*old(buf)),
                    positions,
                    sweep_paint_of(self.model(), area, clamped_alpha(alpha)),
                ),
    {
        let alpha: u32 = clamp_alpha(alpha);
        let window = SlidingWindowAlpha::new(
            self.direction,
            area,
            self.gradient_length,
            self.randomness_extent,
            self.lcg,
            alpha,
        );
        let iter = self.state.select(buf, area);
        let ghost before = buffer_cells(*buf);
        let ghost frame = buffer_area(*buf);
        let ghost positions = iter.positions();
        let ghost paint = sweep_paint(
            self.direction,
            area,
            self.gradient_length,
            self.randomness_extent,
            self.lcg.state(),
            self.faded_color,
            alpha,
        );
        proof {
            let region = intersection_of(area, frame);
            assert forall|j: int, k: int| 0 <= j < k < positions.len() implies positions[j]
                != positions[k] by {
                assert(region_rank(region, positions[j]) < region_rank(region, positions[k]));
            }
        }
        let n = iter.len();
        let mut k: usize = 0;
        while k < n
            invariant
                0 <= k <= n,
                n == positions.len(),
                positions == iter.positions(),
                alpha <= ALPHA_ONE,
                window.wf(),
                window.direction() == self.direction,
                window.area() == area,
                window.gradient() == self.gradient_length,
                window.spread() == self.randomness_extent,
                window.seed() == self.lcg.state(),
                window.progress() == alpha,
                paint == sweep_paint(
            self.direction,
            area,
            self.gradient_length,
            self.randomness_extent,
            self.lcg.state(),
            self.faded_color,
            alpha,
        ),
                buffer_area(*buf) == frame,
                forall|i: int| 0 <= i < n ==> has_cell(before.len(), frame, #[trigger] positions[i]),
                forall|i: int|
                    0 <= i < n ==> contains_position(
                        intersection_of(area, frame),
                        #[trigger] positions[i],
                    ),
                forall|i: int, j: int| 0 <= i < j < n ==> positions[i] != positions[j],
                is_painted_upto(before, buffer_cells(*buf), frame, positions, k as int, paint),
            decreases n - k,
        {
            let p = iter.position(k);
            let ghost prev = buffer_cells(*buf);
            assert(has_cell(before.len(), frame, positions[k as int]));
            assert(contains_position(intersection_of(area, frame), positions[k as int]));
            if let Some(cell) = cell_of(buf, p) {
                let passed = window.alpha(p);
                let c = self.sweep(cell, passed);
                put_cell(buf, p, &c);
            }
            proof {
                lemma_paint_step(before, prev, buffer_cells(*buf), frame, positions, k as int, paint);
            }
            k = k + 1;
        }
        proof {
            assert(paint == sweep_paint_of(self.model(), area, alpha));
            assert(is_painted(
                before,
                buffer_cells(*buf),
                frame,
                positions,
                sweep_paint_of(self.model(), area, alpha),
            ));
        }
    }

    /// The cell as the edge leaves it that has passed it by `passed`.
    fn sweep(&self, cell: Cell, passed: u32) -> (c: Cell)
        ensures
            c@ == swept_cell(cell@, self.faded_color, passed),
    {
        let mut c = cell;
        c.set_fg(lerp(self.faded_color, c.fg, passed));
        c.set_bg(lerp(self.faded_color, c.bg, passed));
        c
    }

    /// Whether the shader is done.
    pub fn done(&self) -> (r: bool)
        ensures
            r == self.model().is_done(),
    {
        self.state.done()
    }

    /// Whether the shader takes no time.
    pub fn is_instant(&self) -> (r: bool)
        ensures
            r == self.model().instant(),
    {
        self.state.is_instant()
    }

    /// Puts the timer back to its start.
    pub fn reset(&mut self)
        ensures
            rewinds(old(self).model(), final(self).model()),
    {
        proof {
            reveal(reset_to);
        }
        self.state.reset()
    }

    /// Turns the timer round.
    pub fn reverse(&mut self)
        ensures
            final(self).model() == old(self).model().reversed(),
            same_timing(old(self).model(), final(self).model()),
            final(self).model().area() == old(self).model().area(),
            final(self).model().filter() == old(self).model().filter(),
    {
        self.state.reverse()
    }

    /// The area that the shader works in instead of the area that it is given.
    pub fn area(&self) -> (area: Option<Rect>)
        ensures
            area == self.model().area(),
    {
        self.state.area()
    }

    /// Makes the shader work in `area`.
    pub fn set_area(&mut self, area: Rect)
        ensures
            final(self).model() == old(self).model().with_area(area),
            same_timing(old(self).model(), final(self).model()),
    {
        self.state.set_area(area)
    }

    /// The filter that selects the cells of the shader.
    pub fn cell_selection(&self) -> (filter: Option<CellFilter>)
        ensures
            filter matches Some(f) && Some(f@) == self.model().filter(),
    {
        Some(self.state.cell_selection())
    }

    /// Makes `filter` select the cells of the shader.
    pub fn set_cell_selection(&mut self, filter: CellFilter)
        ensures
            final(self).model() == old(self).model().with_filter(filter@),
            same_timing(old(self).model(), final(self).model()),
    {
        self.state.set_cell_selection(filter)
    }

    /// The timer.
    pub fn timer(&self) -> (timer: EffectTimer)
        ensures
            timer == self.model()->Leaf_timer,
            self.model().timer() == Some(timer),
    {
        self.state.timer()
    }

    /// The timer of the shader, to be changed in place: what the caller leaves of it is
    /// the timer that the shader goes on with.
    pub fn timer_mut(&mut self) -> (timer: &mut EffectTimer)
        ensures
            old(self).model().own_timer() == Some(*timer),
            final(self).model() == old(self).model().with_timer(*final(timer)),
    {
        self.state.timer_mut()
    }

    /// A copy of the shader.
    pub fn duplicate(&self) -> (copy: SweepIn)
        ensures
            copy.model() == self.model(),
    {
        SweepIn {
            state: self.state.duplicate(),
            direction: self.direction,
            gradient_length: self.gradient_length,
            randomness_extent: self.randomness_extent,
            faded_color: self.faded_color,
            lcg: self.lcg,
        }
    }
}

impl SweepIn {
    /// The time that the shader takes from its start to its end.
    pub fn total_duration(&self) -> (d: Option<Duration>)
        ensures
            millis_of(d) == capped(self.model().duration()),
    {
        let d = self.state.timer().duration();
        proof {
            d.lemma_millis_bounded();
        }
        Some(d)
    }

    /// The course of the shader in time, the shader starting at `offset`.
    pub fn as_effect_span(&self, offset: Duration) -> (span: EffectSpan)
        ensures
            span.model() == self.model().span(offset.millis()),
    {
        EffectSpan::leaf(self.name(), offset, self.total_duration())
    }
}

} // verus!
