//! An effect that moves the content of another buffer across the buffer.

use vstd::prelude::*;
use crate::shader::{stepped, paints_at, paints_cells};
use crate::effect_span::{millis_of, EffectSpan};
use crate::shader_view::capped;
use ratatui::buffer::Buffer;
use ratatui::layout::{Offset, Rect};
use crate::buffer::{area_of, buffer_area, SharedBuffer};
use crate::buffer_renderer::{blit_buffer, is_blitted};
use crate::cell_filter::{CellFilter, FilterView};
use crate::duration::Duration;
use crate::effect_timer::EffectTimer;
use crate::fx::leaf::LeafState;
use crate::interpolation::{clamp_alpha, clamped_alpha, ALPHA_ONE};
use crate::shader::{reset_to, rewinds, same_frame, step_holds};
use crate::shader_view::{same_timing, Look, ShaderView};

verus! {

/// The share `alpha` of a distance, rounded towards zero.
pub open spec fn offset_share(distance: i32, alpha: u32) -> int {
    if distance >= 0 {
        distance * alpha / (ALPHA_ONE as int)
    } else {
        -((-distance) * alpha / (ALPHA_ONE as int))
    }
}

/// The share `alpha` of an offset.
pub open spec fn offset_at_alpha(by: Offset, alpha: u32) -> Offset {
    Offset { x: offset_share(by.x, alpha) as i32, y: offset_share(by.y, alpha) as i32 }
}

/// The share `alpha` of a distance, rounded towards zero.
fn share_of(distance: i32, alpha: u32) -> (d: i32)
    requires
        alpha <= ALPHA_ONE,
    ensures
        d == offset_share(distance, alpha),
{
    if distance >= 0 {
        assert(0 <= distance * alpha / 65536 <= distance && distance * alpha <= 0x7fff_ffff * 65536)
            by (nonlinear_arith)
            requires
                0 <= distance <= 0x7fff_ffff,
                0 <= alpha <= 65536,
        ;
        (((distance as i64) * (alpha as i64)) / (ALPHA_ONE as i64)) as i32
    } else {
        assert(0 <= (-distance) * alpha / 65536 <= -distance && (-distance) * alpha <= 0x8000_0000
            * 65536) by (nonlinear_arith)
            requires
                0 < -distance <= 0x8000_0000,
                0 <= alpha <= 65536,
        ;
        (-(((-(distance as i64)) * (alpha as i64)) / (ALPHA_ONE as i64))) as i32
    }
}

/// Copies a buffer that was rendered beforehand onto the buffer, moved by the share of an
/// offset that the effect's alpha says: at alpha zero the copy lies at the corner of the
/// buffer, at alpha one it has moved by the whole offset. What is to be moved need not be
/// rendered again on every frame.
pub struct TranslateBuffer {
    state: LeafState,
    aux_buffer: SharedBuffer,
    translate_by: Offset,
}

impl TranslateBuffer {
    /// The state of the shader.
    pub closed spec fn model(self) -> ShaderView {
        self.state.model(Look::TranslateBuffer { by: self.translate_by, source: self.aux_buffer })
    }

    /// A move of `aux_buffer` by `translate_by` over the time of `timer`.
    pub fn new(aux_buffer: SharedBuffer, translate_by: Offset, timer: EffectTimer) -> (shader:
        TranslateBuffer)
        ensures
            shader.model() == (ShaderView::Leaf {
                timer,
                area: None,
                filter: FilterView::All,
                look: Look::TranslateBuffer { by: translate_by, source: aux_buffer },
            }),
    {
        TranslateBuffer { state: LeafState::new(timer), aux_buffer, translate_by }
    }

    /// The name of the shader.
    pub fn name(&self) -> (name: &'static str)
        ensures
            name@ == self.model().name(),
    {
        "translate_buf"
    }

    /// Advances the timer by `duration` and copies the other buffer onto `buf`, moved as
    /// far as the timer's alpha then says.
    ///
    /// Returns the time left over on the step that completes the timer.
    pub fn process(&mut self, duration: Duration, buf: &mut Buffer, area: Rect) -> (overflow:
        Option<Duration>)
        ensures
            paints_cells(final(self).model(), area, *old(buf), *final(buf)),
            stepped(
                old(self).model(),
                duration,
                final(self).model(),
                area,
                *old(buf),
                *final(buf),
            ),
            step_holds(
                old(self).model(),
                duration,
                final(self).model(),
                overflow,
                *old(buf),
                *final(buf),
            ),
            exists|source: Buffer|
                #[trigger] is_blitted(
                    source,
                    buffer_area(source),
                    *old(buf),
                    *final(buf),
                    offset_at_alpha(
                        old(self).model()->look->by,
                        final(self).model()->Leaf_timer.alpha_value() as u32,
                    ),
                ),
    {
        proof {
            reveal(stepped);
        }
        let (overflow, alpha) = self.state.advance(duration);
        self.execute(alpha, area, buf);
        proof {
            let source = choose|source: Buffer|
                #[trigger] is_blitted(
                    source,
                    buffer_area(source),
                    *old(buf),
                    *buf,
                    offset_at_alpha(self.model()->look->by, alpha),
                );
            assert(is_blitted(
                source,
                buffer_area(source),
                *old(buf),
                *buf,
                offset_at_alpha(
                    old(self).model()->look->by,
                    self.model()->Leaf_timer.alpha_value() as u32,
                ),
            ));
        }
        overflow
    }

    /// Copies the other buffer, as it is now, onto `buf`, moved by the share `alpha` of
    /// the offset. Cells of the other buffer that are marked to be skipped are left out.
    pub fn execute(&self, alpha: u32, area: Rect, buf: &mut Buffer)
        ensures
            self.model().paints_by_alpha(),
            paints_at(self.model(), clamped_alpha(alpha), area, *old(buf), *final(buf)),
            same_frame(*old(buf), *final(buf)),
            exists|source: Buffer|
                #[trigger] is_blitted(
                    source,
                    buffer_area(source),
                    *old(buf),
                    *final(buf),
                    offset_at_alpha(self.model()->look->by, clamped_alpha(alpha)),
                ),
    {
        let alpha: u32 = clamp_alpha(alpha);
        let offset = Offset {
            x: share_of(self.translate_by.x, alpha),
            y: share_of(self.translate_by.y, alpha),
        };
        let source = self.aux_buffer.snapshot();
        blit_buffer(&source, buf, offset);
        assert(is_blitted(
            source,
            buffer_area(source),
            *old(buf),
            *buf,
            offset_at_alpha(self.model()->look->by, alpha),
        ));
    }

    /// Whether the shader is done.
    pub fn done(&self) -> (r: bool)
        ensures
            r == self.model().is_done(),
    {
        self.state.done()
    }

    /// Whether the shader takes no time.
    pub fn is_instant(&self) -> (r: bool)
        ensures
            r == self.model().instant(),
    {
        self.state.is_instant()
    }

    /// Puts the timer back to its start.
    pub fn reset(&mut self)
        ensures
            rewinds(old(self).model(), final(self).model()),
    {
        proof {
            reveal(reset_to);
        }
        self.state.reset()
    }

    /// Turns the timer round: the copy then moves back to the corner.
    pub fn reverse(&mut self)
        ensures
            final(self).model() == old(self).model().reversed(),
            same_timing(old(self).model(), final(self).model()),
            final(self).model().area() == old(self).model().area(),
            final(self).model().filter() == old(self).model().filter(),
    {
        self.state.reverse()
    }

    /// The area that the shader was told to work in; the copy does not depend on it.
    pub fn area(&self) -> (area: Option<Rect>)
        ensures
            area == self.model().area(),
    {
        self.state.area()
    }

    /// Tells the shader to work in `area`; the copy does not depend on it.
    pub fn set_area(&mut self, area: Rect)
        ensures
            final(self).model() == old(self).model().with_area(area),
            same_timing(old(self).model(), final(self).model()),
    {
        self.state.set_area(area)
    }

    /// The filter that the shader was given; the copy does not depend on it.
    pub fn cell_selection(&self) -> (filter: Option<CellFilter>)
        ensures
            filter matches Some(f) && Some(f@) == self.model().filter(),
    {
        Some(self.state.cell_selection())
    }

    /// Gives the shader a filter; the copy does not depend on it.
    pub fn set_cell_selection(&mut self, filter: CellFilter)
        ensures
            final(self).model() == old(self).model().with_filter(filter@),
            same_timing(old(self).model(), final(self).model()),
    {
        self.state.set_cell_selection(filter)
    }

    /// The timer.
    pub fn timer(&self) -> (timer: EffectTimer)
        ensures
            timer == self.model()->Leaf_timer,
            self.model().timer() == Some(timer),
    {
        self.state.timer()
    }

    /// The timer of the shader, to be changed in place: what the caller leaves of it is
    /// the timer that the shader goes on with.
    pub fn timer_mut(&mut self) -> (timer: &mut EffectTimer)
        ensures
            old(self).model().own_timer() == Some(*timer),
            final(self).model() == old(self).model().with_timer(*final(timer)),
    {
        self.state.timer_mut()
    }

    /// A copy of the shader; it shares the other buffer.
    pub fn duplicate(&self) -> (copy: TranslateBuffer)
        ensures
            copy.model() == self.model(),
    {
        TranslateBuffer {
            state: self.state.duplicate(),
            aux_buffer: self.aux_buffer.share(),
            translate_by: self.translate_by,
        }
    }
}

impl TranslateBuffer {
    /// The time that the shader takes from its start to its end.
    pub fn total_duration(&self) -> (d: Option<Duration>)
        ensures
            millis_of(d) == capped(self.model().duration()),
    {
        let d = self.state.timer().duration();
        proof {
            d.lemma_millis_bounded();
        }
        Some(d)
    }

    /// The course of the shader in time, the shader starting at `offset`.
    pub fn as_effect_span(&self, offset: Duration) -> (span: EffectSpan)
        ensures
            span.model() == self.model().span(offset.millis()),
    {
        EffectSpan::leaf(self.name(), offset, self.total_duration())
    }
}

} // verus!
