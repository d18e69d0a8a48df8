//! An effect that slides the cells out of an area.

use vstd::prelude::*;
use crate::shader::{stepped, paints_at, paints_cells};
use crate::effect_span::{millis_of, EffectSpan};
use crate::shader_view::capped;
use ratatui::buffer::Buffer;
use ratatui::layout::{Position, Rect};
use ratatui::style::Color;
use crate::buffer::{buffer_area, buffer_cells, cell_index, cell_of, has_cell, put_cell};
use crate::cell::{Cell, CellView};
use crate::cell_filter::{CellFilter, FilterView};
use crate::cell_iter::{is_selection, region_rank, CellIterator};
use crate::color_ext::{lerp, lerp_color};
use crate::duration::Duration;
use crate::effect_timer::EffectTimer;
use crate::fx::direction::Motion;
use crate::fx::leaf::LeafState;
use crate::fx::paint::{is_painted, is_painted_upto, lemma_paint_step};
use crate::fx::sliding_window_alpha::{window_alpha, SlidingWindowAlpha};
use crate::geometry::{contains_position, intersection_of};
use crate::interpolation::{clamp_alpha, clamped_alpha, ALPHA_ONE};
use crate::shader::{reset_to, rewinds, same_frame, step_holds};
use crate::shader_view::{same_timing, Look, ShaderView};
use crate::simple_rng::SimpleRng;

verus! {

/// The direction along the same lines that follows the order of the coordinates: the
/// edge of a slide always enters from the left or from the top.
pub open spec fn edge_direction(direction: Motion) -> Motion {
    if direction.horizontal() {
        Motion::LeftToRight
    } else {
        Motion::UpToDown
    }
}

/// How much of a cell shows when the edge has passed it by `passed`: what the edge has
/// passed is covered where the content leaves to the right or downwards, and shows where
/// it leaves to the left or upwards.
pub open spec fn visible_share(direction: Motion, passed: u32) -> u32 {
    if direction.backwards() {
        passed
    } else {
        (ALPHA_ONE - passed) as u32
    }
}

/// The block that fills `eighths` eighths of a cell from the left.
pub open spec fn left_block(eighths: int) -> Seq<char> {
    if eighths <= 0 {
        " "@
    } else if eighths == 1 {
        "▏"@
    } else if eighths == 2 {
        "▎"@
    } else if eighths == 3 {
        "▍"@
    } else if eighths == 4 {
        "▌"@
    } else if eighths == 5 {
        "▋"@
    } else if eighths == 6 {
        "▊"@
    } else if eighths == 7 {
        "▉"@
    } else {
        "█"@
    }
}

/// The block that fills `eighths` eighths of a cell from below.
pub open spec fn lower_block(eighths: int) -> Seq<char> {
    if eighths <= 0 {
        " "@
    } else if eighths == 1 {
        "▁"@
    } else if eighths == 2 {
        "▂"@
    } else if eighths == 3 {
        "▃"@
    } else if eighths == 4 {
        "▄"@
    } else if eighths == 5 {
        "▅"@
    } else if eighths == 6 {
        "▆"@
    } else if eighths == 7 {
        "▇"@
    } else {
        "█"@
    }
}

/// A cell of which the share `visible` shows, the rest being covered by `color`.
///
/// A cell that shows whole is as it was, and a cell that is covered whole is a blank in
/// `color`. Of a cell in between, the content is lost: it shows a block, as many eighths
/// of the cell as are covered or as show, in `color` and the cell's background, so that
/// the cover comes from the side that the content leaves behind.
pub open spec fn slid_cell(cell: CellView, color: Color, direction: Motion, visible: u32) -> CellView {
    let shown = visible * 8 / (ALPHA_ONE as int);
    if visible >= ALPHA_ONE {
        cell
    } else if visible == 0 {
        CellView { symbol: " "@, fg: color, bg: color, ..cell }
    } else {
        match direction {
            Motion::LeftToRight => CellView {
                symbol: left_block(8 - shown),
                fg: color,
                bg: cell.bg,
                ..cell
            },
            Motion::RightToLeft => CellView {
                symbol: left_block(shown),
                fg: cell.bg,
                bg: color,
                ..cell
            },
            Motion::UpToDown => CellView {
                symbol: lower_block(shown),
                fg: cell.bg,
                bg: color,
                ..cell
            },
            Motion::DownToUp => CellView {
                symbol: lower_block(8 - shown),
                fg: color,
                bg: cell.bg,
                ..cell
            },
        }
    }
}

/// What sliding at `alpha` makes of each cell.
pub open spec fn slide_paint(
    direction: Motion,
    area: Rect,
    gradient: u16,
    spread: u16,
    seed: u32,
    color: Color,
    alpha: u32,
) -> spec_fn(int, Position, CellView) -> CellView {
    |k: int, p: Position, c: CellView|
        slid_cell(
            c,
            color,
            direction,
            visible_share(
                direction,
                window_alpha(edge_direction(direction), area, gradient, spread, seed, alpha, p) as u32,
            ),
        )
}

/// The paint of a slide, from the state of its shader.
pub open spec fn slide_paint_of(v: ShaderView, area: Rect, alpha: u32) -> spec_fn(
    int,
    Position,
    CellView,
) -> CellView {
    match v {
        ShaderView::Leaf { look: Look::Slide { direction, gradient, spread, color, rng }, .. } => {
            slide_paint(direction, area, gradient, spread, rng.state(), color, alpha)
        },
        _ => |k: int, p: Position, c: CellView| c,
    }
}

/// The block that fills `eighths` eighths of a cell from the left.
fn left_block_of(eighths: u32) -> (s: &'static str)
    ensures
        s@ == left_block(eighths as int),
{
    if eighths == 0 {
        " "
    } else if eighths == 1 {
        "▏"
    } else if eighths == 2 {
        "▎"
    } else if eighths == 3 {
        "▍"
    } else if eighths == 4 {
        "▌"
    } else if eighths == 5 {
        "▋"
    } else if eighths == 6 {
        "▊"
    } else if eighths == 7 {
        "▉"
    } else {
        "█"
    }
}

/// The block that fills `eighths` eighths of a cell from below.
fn lower_block_of(eighths: u32) -> (s: &'static str)
    ensures
        s@ == lower_block(eighths as int),
{
    if eighths == 0 {
        " "
    } else if eighths == 1 {
        "▁"
    } else if eighths == 2 {
        "▂"
    } else if eighths == 3 {
        "▃"
    } else if eighths == 4 {
        "▄"
    } else if eighths == 5 {
        "▅"
    } else if eighths == 6 {
        "▆"
    } else if eighths == 7 {
        "▇"
    } else {
        "█"
    }
}

/// Lets an edge cross the area, from the left or from the top, and covers the cells on
/// one side of it with a color, so that the content seems to slide out of the area. In a
/// band at the edge a cell is covered in part, and shows a block of the size of the part.
///
/// With a timer that runs forwards the edge covers what it passes when the content leaves
/// to the right or downwards, and uncovers it when the content leaves to the left or
/// upwards; a timer that runs backwards moves the edge back.
pub struct SlideCell {
    state: LeafState,
    color_behind_cell: Color,
    gradient_length: u16,
    randomness_extent: u16,
    direction: Motion,
    lcg: SimpleRng,
}

impl SlideCell {
    /// The state of the shader.
    pub closed spec fn model(self) -> ShaderView {
        self.state.model(
            Look::Slide {
                direction: self.direction,
                gradient: self.gradient_length,
                spread: self.randomness_extent,
                color: self.color_behind_cell,
                rng: self.lcg,
            },
        )
    }

    /// A slide in `direction` over the time of `timer`, with the color `color_behind_cell`
    /// behind the cells, a band of `gradient_length` cells and lines held back by up to
    /// `randomness_extent` cells.
    pub fn new(
        timer: EffectTimer,
        color_behind_cell: Color,
        gradient_length: u16,
        randomness_extent: u16,
        direction: Motion,
    ) -> (shader: SlideCell)
        ensures
            shader.model() == (ShaderView::Leaf {
                timer,
                area: None,
                filter: FilterView::All,
                look: Look::Slide {
                    direction,
                    gradient: gradient_length,
                    spread: randomness_extent,
                    color: color_behind_cell,
                    rng: SimpleRng::new_spec(0x5eed_1e55),
                },
            }),
    {
        SlideCell {
            state: LeafState::new(timer),
            color_behind_cell,
            gradient_length,
            randomness_extent,
            direction,
            lcg: SimpleRng::default(),
        }
    }

    /// The name of the shader.
    pub fn name(&self) -> (name: &'static str)
        ensures
            name@ == self.model().name(),
    {
        if self.state.timer().is_reversed() == self.direction.flips_timer() {
            "slide_out"
        } else {
            "slide_in"
        }
    }

    /// The direction in which the edge crosses the area.
    fn edge(&self) -> (direction: Motion)
        ensures
            direction == edge_direction(self.direction),
    {
        if self.direction.is_horizontal() {
            Motion::LeftToRight
        } else {
            Motion::UpToDown
        }
    }

    /// Advances the timer by `duration` and covers the cells as far as the edge has come at
    /// the alpha that the timer then shows.
    ///
    /// Returns the time left over on the step that completes the timer.
    pub fn process(&mut self, duration: Duration, buf: &mut Buffer, area: Rect) -> (overflow:
        Option<Duration>)
        ensures
            paints_cells(final(self).model(), area, *old(buf), *final(buf)),
            stepped(
                old(self).model(),
                duration,
                final(self).model(),
                area,
                *old(buf),
                *final(buf),
            ),
            step_holds(
                old(self).model(),
                duration,
                final(self).model(),
                overflow,
                *old(buf),
                *final(buf),
            ),
            final(self).model() == (ShaderView::Leaf {
                timer: old(self).model()->Leaf_timer.advanced(duration),
                area: old(self).model()->Leaf_area,
                filter: old(self).model()->filter,
                look: old(self).model()->look,
            }),
            exists|positions: Seq<Position>|
                is_selection(
                    positions,
                    buffer_cells(*old(buf)),
                    buffer_area(*old(buf)),
                    area,
                    Some(old(self).model()->filter),
                ) && #[trigger] is_painted(
                    buffer_cells(*old(buf)),
                    buffer_cells(*final(buf)),
                    buffer_area(*old(buf)),
                    positions,
                    slide_paint_of(
                        old(self).model(),
                        area,
                        final(self).model()->Leaf_timer.alpha_value() as u32,
                    ),
                ),
    {
        proof {
            reveal(stepped);
        }
        let (overflow, alpha) = self.state.advance(duration);
        self.execute(alpha, area, buf);
        proof {
            let positions = choose|positions: Seq<Position>|
                is_selection(
                    positions,
                    buffer_cells(*old(buf)),
                    buffer_area(*old(buf)),
                    area,
                    Some(self.model()->filter),
                ) && #[trigger] is_painted(
                    buffer_cells(*old(buf)),
                    buffer_cells(*buf),
                    buffer_area(*old(buf)),
                    positions,
                    slide_paint_of(self.model(), area, alpha),
                );
            assert(is_painted(
                buffer_cells(*old(buf)),
                buffer_cells(*buf),
                buffer_area(*old(buf)),
                positions,
                slide_paint_of(
                        old(self).model(),
                        area,
                        self.model()->Leaf_timer.alpha_value() as u32,
                    ),
            ));
        }
        overflow
    }

    /// Covers each cell that the filter selects within `area` as far as the edge has passed
    /// it at `alpha`.
    pub fn execute(&self, alpha: u32, area: Rect, buf: &mut Buffer)
        ensures
            self.model().paints_by_alpha(),
            paints_at(self.model(), clamped_alpha(alpha), area, *old(buf), *final(buf)),
            same_frame(*old(buf), *final(buf)),
            exists|positions: Seq<Position>|
                is_selection(
                    positions,
                    buffer_cells(*old(buf)),
                    buffer_area(*old(buf)),
                    area,
                    Some(self.model()->filter),
                ) && #[trigger] is_painted(
                    buffer_cells(*old(buf)),
                    buffer_cells(*final(buf)),
                    buffer_area(*old(buf)),
                    positions,
                    slide_paint_of(self.model(), area, clamped_alpha(alpha)),
                ),
    {
        let alpha: u32 = clamp_alpha(alpha);
        let window = SlidingWindowAlpha::new(
            self.edge(),
            area,
            self.gradient_length,
            self.randomness_extent,
            self.lcg,
            alpha,
        );
        let iter = self.state.select(buf, area);
        let ghost before = buffer_cells(*buf);
        let ghost frame = buffer_area(*buf);
        let ghost positions = iter.positions();
        let ghost paint = slide_paint(
            self.direction,
            area,
            self.gradient_length,
            self.randomness_extent,
            self.lcg.state(),
            self.color_behind_cell,
            alpha,
        );
        proof {
            let region = intersection_of(area, frame);
            assert forall|j: int, k: int| 0 <= j < k < positions.len() implies positions[j]
                != positions[k] by {
                assert(region_rank(region, positions[j]) < region_rank(region, positions[k]));
            }
        }
        let n = iter.len();
        let mut k: usize = 0;
        while k < n
            invariant
                0 <= k <= n,
                n == positions.len(),
                positions == iter.positions(),
                alpha <= ALPHA_ONE,
                window.wf(),
                window.direction() == edge_direction(self.direction),
                window.area() == area,
                window.gradient() == self.gradient_length,
                window.spread() == self.randomness_extent,
                window.seed() == self.lcg.state(),
                window.progress() == alpha,
                paint == slide_paint(
            self.direction,
            area,
            self.gradient_length,
            self.randomness_extent,
            self.lcg.state(),
            self.color_behind_cell,
            alpha,
        ),
                buffer_area(*buf) == frame,
                forall|i: int| 0 <= i < n ==> has_cell(before.len(), frame, #[trigger] positions[i]),
                forall|i: int|
                    0 <= i < n ==> contains_position(
                        intersection_of(area, frame),
                        #[trigger] positions[i],
                    ),
                forall|i: int, j: int| 0 <= i < j < n ==> positions[i] != positions[j],
                is_painted_upto(before, buffer_cells(*buf), frame, positions, k as int, paint),
            decreases n - k,
        {
            let p = iter.position(k);
            let ghost prev = buffer_cells(*buf);
            assert(has_cell(before.len(), frame, positions[k as int]));
            assert(contains_position(intersection_of(area, frame), positions[k as int]));
            if let Some(cell) = cell_of(buf, p) {
                let passed = window.alpha(p);
                let c = self.slide(cell, passed);
                put_cell(buf, p, &c);
            }
            proof {
                lemma_paint_step(before, prev, buffer_cells(*buf), frame, positions, k as int, paint);
            }
            k = k + 1;
        }
        proof {
            assert(paint == slide_paint_of(self.model(), area, alpha));
            assert(is_painted(
                before,
                buffer_cells(*buf),
                frame,
                positions,
                slide_paint_of(self.model(), area, alpha),
            ));
        }
    }

    /// The cell as the edge leaves it that has passed it by `passed`.
    fn slide(&self, cell: Cell, passed: u32) -> (c: Cell)
        requires
            passed <= ALPHA_ONE,
        ensures
            c@ == slid_cell(
                cell@,
                self.color_behind_cell,
                self.direction,
                visible_share(self.direction, passed),
            ),
    {
        let visible: u32 = if self.direction.flips_timer() {
            passed
        } else {
            ALPHA_ONE - passed
        };
        let mut c = cell;
        if visible >= ALPHA_ONE {
            return c;
        }
        let color = self.color_behind_cell;
        if visible == 0 {
            c.set_symbol(" ");
            c.set_fg(color);
            c.set_bg(color);
            return c;
        }
        let shown: u32 = visible * 8 / ALPHA_ONE;
        let own = c.bg;
        match self.direction {
            Motion::LeftToRight => {
                c.set_symbol(left_block_of(8 - shown));
                c.set_fg(color);
            },
            Motion::RightToLeft => {
                c.set_symbol(left_block_of(shown));
                c.set_fg(own);
                c.set_bg(color);
            },
            Motion::UpToDown => {
                c.set_symbol(lower_block_of(shown));
                c.set_fg(own);
                c.set_bg(color);
            },
            Motion::DownToUp => {
                c.set_symbol(lower_block_of(8 - shown));
                c.set_fg(color);
            },
        }
        c
    }

    /// Whether the shader is done.
    pub fn done(&self) -> (r: bool)
        ensures
            r == self.model().is_done(),
    {
        self.state.done()
    }

    /// Whether the shader takes no time.
    pub fn is_instant(&self) -> (r: bool)
        ensures
            r == self.model().instant(),
    {
        self.state.is_instant()
    }

    /// Puts the timer back to its start.
    pub fn reset(&mut self)
        ensures
            rewinds(old(self).model(), final(self).model()),
    {
        proof {
            reveal(reset_to);
        }
        self.state.reset()
    }

    /// Turns the timer round.
    pub fn reverse(&mut self)
        ensures
            final(self).model() == old(self).model().reversed(),
            same_timing(old(self).model(), final(self).model()),
            final(self).model().area() == old(self).model().area(),
            final(self).model().filter() == old(self).model().filter(),
    {
        self.state.reverse()
    }

    /// The area that the shader works in instead of the area that it is given.
    pub fn area(&self) -> (area: Option<Rect>)
        ensures
            area == self.model().area(),
    {
        self.state.area()
    }

    /// Makes the shader work in `area`.
    pub fn set_area(&mut self, area: Rect)
        ensures
            final(self).model() == old(self).model().with_area(area),
            same_timing(old(self).model(), final(self).model()),
    {
        self.state.set_area(area)
    }

    /// The filter that selects the cells of the shader.
    pub fn cell_selection(&self) -> (filter: Option<CellFilter>)
        ensures
            filter matches Some(f) && Some(f@) == self.model().filter(),
    {
        Some(self.state.cell_selection())
    }

    /// Makes `filter` select the cells of the shader.
    pub fn set_cell_selection(&mut self, filter: CellFilter)
        ensures
            final(self).model() == old(self).model().with_filter(filter@),
            same_timing(old(self).model(), final(self).model()),
    {
        self.state.set_cell_selection(filter)
    }

    /// The timer.
    pub fn timer(&self) -> (timer: EffectTimer)
        ensures
            timer == self.model()->Leaf_timer,
            self.model().timer() == Some(timer),
    {
        self.state.timer()
    }

    /// The timer of the shader, to be changed in place: what the caller leaves of it is
    /// the timer that the shader goes on with.
    pub fn timer_mut(&mut self) -> (timer: &mut EffectTimer)
        ensures
            old(self).model().own_timer() == Some(*timer),
            final(self).model() == old(self).model().with_timer(*final(timer)),
    {
        self.state.timer_mut()
    }

    /// A copy of the shader.
    pub fn duplicate(&self) -> (copy: SlideCell)
        ensures
            copy.model() == self.model(),
    {
        SlideCell {
            state: self.state.duplicate(),
            color_behind_cell: self.color_behind_cell,
            gradient_length: self.gradient_length,
            randomness_extent: self.randomness_extent,
            direction: self.direction,
            lcg: self.lcg,
        }
    }
}

impl SlideCell {
    /// The time that the shader takes from its start to its end.
    pub fn total_duration(&self) -> (d: Option<Duration>)
        ensures
            millis_of(d) == capped(self.model().duration()),
    {
        let d = self.state.timer().duration();
        proof {
            d.lemma_millis_bounded();
        }
        Some(d)
    }

    /// The course of the shader in time, the shader starting at `offset`.
    pub fn as_effect_span(&self, offset: Duration) -> (span: EffectSpan)
        ensures
            span.model() == self.model().span(offset.millis()),
    {
        EffectSpan::leaf(self.name(), offset, self.total_duration())
    }
}

} // verus!
