//! An effect that moves the colors of cells towards other colors.

use vstd::prelude::*;
use crate::shader::{stepped, paints_at, paints_cells};
use crate::effect_span::{millis_of, EffectSpan};
use crate::shader_view::capped;
use ratatui::buffer::Buffer;
use ratatui::layout::{Position, Rect};
use ratatui::style::Color;
use crate::buffer::{buffer_area, buffer_cells, cell_index, cell_of, has_cell, put_cell};
use crate::cell::{Cell, CellView};
use crate::cell_filter::{CellFilter, FilterView};
use crate::cell_iter::{is_selection, region_rank, CellIterator};
use crate::color_ext::{lerp, lerp_color};
use crate::duration::Duration;
use crate::effect_timer::EffectTimer;
use crate::fx::leaf::LeafState;
use crate::fx::paint::{is_painted, is_painted_upto, lemma_paint_step};
use crate::geometry::intersection_of;
use crate::interpolation::{clamp_alpha, clamped_alpha, ALPHA_ONE};
use crate::shader::{reset_to, rewinds, same_frame, step_holds};
use crate::shader_view::{same_timing, Look, ShaderView};

verus! {

/// A cell with its colors the share `alpha` of the way towards `fg` and `bg`, where there
/// is one.
pub open spec fn faded_cell(cell: CellView, fg: Option<Color>, bg: Option<Color>, alpha: u32) -> CellView {
    CellView {
        fg: match fg {
            Some(to) => lerp_color(cell.fg, to, alpha),
            None => cell.fg,
        },
        bg: match bg {
            Some(to) => lerp_color(cell.bg, to, alpha),
            None => cell.bg,
        },
        ..cell
    }
}

/// What fading at `alpha` makes of each cell.
pub open spec fn fade_paint(fg: Option<Color>, bg: Option<Color>, alpha: u32) -> spec_fn(
    int,
    Position,
    CellView,
) -> CellView {
    |k: int, p: Position, c: CellView| faded_cell(c, fg, bg, alpha)
}

/// Moves the foreground color, the background color, or both, of the cells that its
/// filter selects towards a color, as far as its alpha says: at alpha zero the cells have
/// their own colors, at alpha one the colors of the effect. With a timer that runs
/// backwards the cells start with the colors of the effect and end with their own.
pub struct FadeColors {
    state: LeafState,
    fg: Option<Color>,
    bg: Option<Color>,
}

impl FadeColors {
    /// The state of the shader.
    pub closed spec fn model(self) -> ShaderView {
        self.state.model(Look::Fade { fg: self.fg, bg: self.bg })
    }

    /// A fade towards `fg` and `bg`, where there is one, over the time of `timer`.
    pub fn new(fg: Option<Color>, bg: Option<Color>, timer: EffectTimer) -> (shader: FadeColors)
        requires
            fg is Some || bg is Some,
        ensures
            shader.model() == (ShaderView::Leaf {
                timer,
                area: None,
                filter: FilterView::All,
                look: Look::Fade { fg, bg },
            }),
    {
        FadeColors { state: LeafState::new(timer), fg, bg }
    }

    /// The name of the shader.
    pub fn name(&self) -> (name: &'static str)
        ensures
            name@ == self.model().name(),
    {
        if self.state.timer().is_reversed() {
            "fade_from"
        } else {
            "fade_to"
        }
    }

    /// Advances the timer by `duration` and fades the cells at the alpha that it then
    /// shows.
    ///
    /// Returns the time left over on the step that completes the timer.
    pub fn process(&mut self, duration: Duration, buf: &mut Buffer, area: Rect) -> (overflow:
        Option<Duration>)
        ensures
            paints_cells(final(self).model(), area, *old(buf), *final(buf)),
            stepped(
                old(self).model(),
                duration,
                final(self).model(),
                area,
                *old(buf),
                *final(buf),
            ),
            step_holds(
                old(self).model(),
                duration,
                final(self).model(),
                overflow,
                *old(buf),
                *final(buf),
            ),
            final(self).model() == (ShaderView::Leaf {
                timer: old(self).model()->Leaf_timer.advanced(duration),
                area: old(self).model()->Leaf_area,
                filter: old(self).model()->filter,
                look: old(self).model()->look,
            }),
            exists|positions: Seq<Position>|
                is_selection(
                    positions,
                    buffer_cells(*old(buf)),
                    buffer_area(*old(buf)),
                    area,
                    Some(old(self).model()->filter),
                ) && #[trigger] is_painted(
                    buffer_cells(*old(buf)),
                    buffer_cells(*final(buf)),
                    buffer_area(*old(buf)),
                    positions,
                    fade_paint(
                        old(self).model()->look->fg,
                        old(self).model()->look->bg,
                        final(self).model()->Leaf_timer.alpha_value() as u32,
                    ),
                ),
    {
        proof {
            reveal(stepped);
        }
        let (overflow, alpha) = self.state.advance(duration);
        self.execute(alpha, area, buf);
        proof {
            let positions = choose|positions: Seq<Position>|
                is_selection(
                    positions,
                    buffer_cells(*old(buf)),
                    buffer_area(*old(buf)),
                    area,
                    Some(self.model()->filter),
                ) && #[trigger] is_painted(
                    buffer_cells(*old(buf)),
                    buffer_cells(*buf),
                    buffer_area(*old(buf)),
                    positions,
                    fade_paint(self.model()->look->fg, self.model()->look->bg, alpha),
                );
            assert(is_painted(
                buffer_cells(*old(buf)),
                buffer_cells(*buf),
                buffer_area(*old(buf)),
                positions,
                fade_paint(
                    old(self).model()->look->fg,
                    old(self).model()->look->bg,
                    self.model()->Leaf_timer.alpha_value() as u32,
                ),
            ));
        }
        overflow
    }

    /// Fades the cells that the filter selects within `area`, at `alpha`.
    pub fn execute(&self, alpha: u32, area: Rect, buf: &mut Buffer)
        ensures
            self.model().paints_by_alpha(),
            paints_at(self.model(), clamped_alpha(alpha), area, *old(buf), *final(buf)),
            same_frame(*old(buf), *final(buf)),
            exists|positions: Seq<Position>|
                is_selection(
                    positions,
                    buffer_cells(*old(buf)),
                    buffer_area(*old(buf)),
                    area,
                    Some(self.model()->filter),
                ) && #[trigger] is_painted(
                    buffer_cells(*old(buf)),
                    buffer_cells(*final(buf)),
                    buffer_area(*old(buf)),
                    positions,
                    fade_paint(self.model()->look->fg, self.model()->look->bg, clamped_alpha(alpha)),
                ),
    {
        let alpha: u32 = clamp_alpha(alpha);
        let iter = self.state.select(buf, area);
        let ghost before = buffer_cells(*buf);
        let ghost frame = buffer_area(*buf);
        let ghost positions = iter.positions();
        let ghost paint = fade_paint(self.fg, self.bg, alpha);
        proof {
            let region = intersection_of(area, frame);
            assert forall|j: int, k: int| 0 <= j < k < positions.len() implies positions[j]
                != positions[k] by {
                assert(region_rank(region, positions[j]) < region_rank(region, positions[k]));
            }
        }
        let n = iter.len();
        let mut k: usize = 0;
        while k < n
            invariant
                0 <= k <= n,
                n == positions.len(),
                positions == iter.positions(),
                alpha <= ALPHA_ONE,
                paint == fade_paint(self.fg, self.bg, alpha),
                buffer_area(*buf) == frame,
                forall|i: int| 0 <= i < n ==> has_cell(before.len(), frame, #[trigger] positions[i]),
                forall|i: int, j: int| 0 <= i < j < n ==> positions[i] != positions[j],
                is_painted_upto(before, buffer_cells(*buf), frame, positions, k as int, paint),
            decreases n - k,
        {
            let p = iter.position(k);
            let ghost prev = buffer_cells(*buf);
            assert(has_cell(before.len(), frame, positions[k as int]));
            if let Some(cell) = cell_of(buf, p) {
                let c = self.fade(cell, alpha);
                put_cell(buf, p, &c);
            }
            proof {
                lemma_paint_step(before, prev, buffer_cells(*buf), frame, positions, k as int, paint);
            }
            k = k + 1;
        }
        proof {
            assert(is_painted(before, buffer_cells(*buf), frame, positions, paint));
        }
    }

    /// The cell with its colors at `alpha` of the way to the colors of the effect.
    fn fade(&self, cell: Cell, alpha: u32) -> (c: Cell)
        ensures
            c@ == faded_cell(cell@, self.fg, self.bg, alpha),
    {
        let mut c = cell;
        if let Some(to) = self.fg {
            c.set_fg(lerp(c.fg, to, alpha));
        }
        if let Some(to) = self.bg {
            c.set_bg(lerp(c.bg, to, alpha));
        }
        c
    }

    /// Whether the shader is done.
    pub fn done(&self) -> (r: bool)
        ensures
            r == self.model().is_done(),
    {
        self.state.done()
    }

    /// Whether the shader takes no time.
    pub fn is_instant(&self) -> (r: bool)
        ensures
            r == self.model().instant(),
    {
        self.state.is_instant()
    }

    /// Puts the timer back to its start.
    pub fn reset(&mut self)
        ensures
            rewinds(old(self).model(), final(self).model()),
    {
        proof {
            reveal(reset_to);
        }
        self.state.reset()
    }

    /// Turns the fade round: a fade to a color becomes a fade from it, and the other way.
    pub fn reverse(&mut self)
        ensures
            final(self).model() == old(self).model().reversed(),
            same_timing(old(self).model(), final(self).model()),
            final(self).model().area() == old(self).model().area(),
            final(self).model().filter() == old(self).model().filter(),
    {
        self.state.reverse()
    }

    /// The area that the shader works in instead of the area that it is given.
    pub fn area(&self) -> (area: Option<Rect>)
        ensures
            area == self.model().area(),
    {
        self.state.area()
    }

    /// Makes the shader work in `area`.
    pub fn set_area(&mut self, area: Rect)
        ensures
            final(self).model() == old(self).model().with_area(area),
            same_timing(old(self).model(), final(self).model()),
    {
        self.state.set_area(area)
    }

    /// The filter that selects the cells to fade.
    pub fn cell_selection(&self) -> (filter: Option<CellFilter>)
        ensures
            filter matches Some(f) && Some(f@) == self.model().filter(),
    {
        Some(self.state.cell_selection())
    }

    /// Makes `filter` select the cells to fade.
    pub fn set_cell_selection(&mut self, filter: CellFilter)
        ensures
            final(self).model() == old(self).model().with_filter(filter@),
            same_timing(old(self).model(), final(self).model()),
    {
        self.state.set_cell_selection(filter)
    }

    /// The timer.
    pub fn timer(&self) -> (timer: EffectTimer)
        ensures
            timer == self.model()->Leaf_timer,
            self.model().timer() == Some(timer),
    {
        self.state.timer()
    }

    /// The timer of the shader, to be changed in place: what the caller leaves of it is
    /// the timer that the shader goes on with.
    pub fn timer_mut(&mut self) -> (timer: &mut EffectTimer)
        ensures
            old(self).model().own_timer() == Some(*timer),
            final(self).model() == old(self).model().with_timer(*final(timer)),
    {
        self.state.timer_mut()
    }

    /// A copy of the shader.
    pub fn duplicate(&self) -> (copy: FadeColors)
        ensures
            copy.model() == self.model(),
    {
        FadeColors { state: self.state.duplicate(), fg: self.fg, bg: self.bg }
    }
}

impl FadeColors {
    /// The time that the shader takes from its start to its end.
    pub fn total_duration(&self) -> (d: Option<Duration>)
        ensures
            millis_of(d) == capped(self.model().duration()),
    {
        let d = self.state.timer().duration();
        proof {
            d.lemma_millis_bounded();
        }
        Some(d)
    }

    /// The course of the shader in time, the shader starting at `offset`.
    pub fn as_effect_span(&self, offset: Duration) -> (span: EffectSpan)
        ensures
            span.model() == self.model().span(offset.millis()),
    {
        EffectSpan::leaf(self.name(), offset, self.total_duration())
    }
}

} // verus!
