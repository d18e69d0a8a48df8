//! An effect that paints into a buffer of its own.

use vstd::prelude::*;
use crate::shader::{area_for, paints_cells, stepped};
use crate::effect_span::{millis_of, EffectSpan};
use crate::shader_view::{capped, lasting};
use ratatui::buffer::Buffer;
use ratatui::layout::Rect;
use crate::buffer::{area_of, buffer_area, buffer_cells, SharedBuffer};
use crate::cell_filter::CellFilter;
use crate::duration::Duration;
use crate::effect::Effect;
use crate::shader::{reset_to, rewinds, same_frame, step_holds};
use crate::shader_view::{same_timing, ShaderView};

verus! {

/// Runs its effect on a shared buffer instead of the buffer that it is given, which it
/// leaves as it is. To bring what the effect paints onto the screen is left to the owner
/// of the shared buffer.
pub struct OffscreenBuffer {
    fx: Effect,
    render_target: SharedBuffer,
}

impl OffscreenBuffer {
    /// The state of the shader.
    pub closed spec fn model(self) -> ShaderView
        decreases self,
    {
        ShaderView::Offscreen { inner: Box::new(self.fx.model()), target: self.render_target }
    }

    /// The effect `fx`, painting into `render_target`.
    pub fn new(fx: Effect, render_target: SharedBuffer) -> (shader: OffscreenBuffer)
        ensures
            shader.model() == (ShaderView::Offscreen {
                inner: Box::new(fx.model()),
                target: render_target,
            }),
    {
        OffscreenBuffer { fx, render_target }
    }

    /// The name of the shader.
    pub fn name(&self) -> (name: &'static str)
        ensures
            name@ == self.model().name(),
    {
        "offscreen_buffer"
    }

    /// Advances the effect by `duration` and lets it paint into the shared buffer, within
    /// the area of that buffer. The buffer `buf` is not touched.
    ///
    /// Returns what the effect hands back.
    pub fn process(&mut self, duration: Duration, buf: &mut Buffer, area: Rect) -> (overflow:
        Option<Duration>)
        ensures
            paints_cells(final(self).model(), area, *old(buf), *final(buf)),
            stepped(
                old(self).model(),
                duration,
                final(self).model(),
                area,
                *old(buf),
                *final(buf),
            ),
            step_holds(
                old(self).model(),
                duration,
                final(self).model(),
                overflow,
                *old(buf),
                *final(buf),
            ),
            *final(buf) == *old(buf),
        decreases old(self).model().depth(), 0int,
    {
        proof {
            reveal(stepped);
        }
        let mut target = self.render_target.snapshot();
        let target_area = area_of(&target);
        let ghost other = target;
        let overflow = self.fx.process(duration, &mut target, target_area);
        proof {
            assert(same_frame(other, target));
            assert(stepped(
                old(self).fx.model(),
                duration,
                self.fx.model(),
                area_for(old(self).fx.model(), buffer_area(other)),
                other,
                target,
            ));
        }
        self.render_target.store(target);
        overflow
    }

    /// Whether the shader is done.
    pub fn done(&self) -> (r: bool)
        ensures
            r == self.model().is_done(),
        decreases self,
    {
        self.fx.done()
    }

    /// Whether the effect takes no time.
    pub fn is_instant(&self) -> (r: bool)
        ensures
            r == self.model().instant(),
        decreases self,
    {
        self.fx.is_instant()
    }

    /// Puts the effect back to its start.
    pub fn reset(&mut self)
        ensures
            rewinds(old(self).model(), final(self).model()),
        decreases old(self).model().depth(), 0int,
    {
        proof {
            reveal(reset_to);
        }
        self.fx.reset()
    }

    /// Turns the effect round.
    pub fn reverse(&mut self)
        ensures
            final(self).model() == old(self).model().reversed(),
            same_timing(old(self).model(), final(self).model()),
            final(self).model().area() == old(self).model().area(),
            final(self).model().filter() == old(self).model().filter(),
        decreases *old(self),
    {
        self.fx.reverse()
    }

    /// The area of the effect.
    pub fn area(&self) -> (area: Option<Rect>)
        ensures
            area == self.model().area(),
        decreases self,
    {
        self.fx.area()
    }

    /// Makes the effect work in `area`.
    pub fn set_area(&mut self, area: Rect)
        ensures
            final(self).model() == old(self).model().with_area(area),
            same_timing(old(self).model(), final(self).model()),
        decreases *old(self),
    {
        self.fx.set_area(area)
    }

    /// The filter of the effect.
    pub fn cell_selection(&self) -> (filter: Option<CellFilter>)
        ensures
            filter is Some == self.model().filter() is Some,
            filter matches Some(f) ==> Some(f@) == self.model().filter(),
        decreases self,
    {
        self.fx.cell_selection()
    }

    /// Makes the effect touch the cells that `filter` selects.
    pub fn set_cell_selection(&mut self, filter: CellFilter)
        ensures
            final(self).model() == old(self).model().with_filter(filter@),
            same_timing(old(self).model(), final(self).model()),
        decreases *old(self),
    {
        self.fx.set_cell_selection(filter)
    }

    /// A copy of the shader; it paints into the same shared buffer.
    pub fn duplicate(&self) -> (copy: OffscreenBuffer)
        ensures
            copy.model() == self.model(),
        decreases self,
    {
        OffscreenBuffer { fx: self.fx.duplicate(), render_target: self.render_target.share() }
    }
}

impl OffscreenBuffer {
    /// The shader does not paint by alpha.
    pub proof fn lemma_paints_by_code(self)
        ensures
            !self.model().paints_by_alpha(),
    {
    }

    /// The shader keeps no timer that its user may change.
    pub proof fn lemma_keeps_no_timer(self)
        ensures
            self.model().own_timer() is None,
    {
    }

    /// The time that the shader takes from its start to its end; `None` where it has no
    /// end.
    pub fn total_duration(&self) -> (d: Option<Duration>)
        ensures
            millis_of(d) == capped(self.model().duration()),
            self.model().timer() == lasting(capped(self.model().duration())),
        decreases self,
    {
        self.fx.total_duration()
    }

    /// The course of the shader and of the effect that it runs, the shader starting at
    /// `offset`.
    pub fn as_effect_span(&self, offset: Duration) -> (span: EffectSpan)
        ensures
            span.model() == self.model().span(offset.millis()),
        decreases self,
    {
        let child = self.fx.as_effect_span(offset);
        EffectSpan::wrapping(self.name(), offset, self.total_duration(), child)
    }
}

} // verus!
