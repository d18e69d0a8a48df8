//! An effect that never reports completion.

use vstd::prelude::*;
use crate::shader::{stepped, paints_cells};
use crate::effect_span::{millis_of, EffectSpan};
use crate::shader_view::{capped, lasting};
use ratatui::buffer::Buffer;
use ratatui::layout::Rect;
use crate::cell_filter::CellFilter;
use crate::duration::Duration;
use crate::effect::Effect;
use crate::shader::{reset_to, rewinds, step_holds};
use crate::shader_view::{same_timing, ShaderView};

verus! {

/// Runs its effect and is never done. Once the effect has reached its end it stays
/// there, and goes on painting its last state.
pub struct NeverComplete {
    effect: Effect,
}

impl NeverComplete {
    /// The state of the shader.
    pub closed spec fn model(self) -> ShaderView
        decreases self,
    {
        ShaderView::NeverComplete { inner: Box::new(self.effect.model()) }
    }

    /// The effect, made endless.
    pub fn new(effect: Effect) -> (shader: NeverComplete)
        ensures
            shader.model() == (ShaderView::NeverComplete { inner: Box::new(effect.model()) }),
    {
        NeverComplete { effect }
    }

    /// The name of the shader.
    pub fn name(&self) -> (name: &'static str)
        ensures
            name@ == self.model().name(),
    {
        "never_complete"
    }

    /// Advances the effect and hands nothing back.
    pub fn process(&mut self, duration: Duration, buf: &mut Buffer, area: Rect) -> (overflow:
        Option<Duration>)
        ensures
            paints_cells(final(self).model(), area, *old(buf), *final(buf)),
            stepped(
                old(self).model(),
                duration,
                final(self).model(),
                area,
                *old(buf),
                *final(buf),
            ),
            overflow is None,
            step_holds(
                old(self).model(),
                duration,
                final(self).model(),
                overflow,
                *old(buf),
                *final(buf),
            ),
            exists|inner_overflow: Option<Duration>|
                #[trigger] step_holds(
                    *old(self).model()->NeverComplete_inner,
                    duration,
                    *final(self).model()->NeverComplete_inner,
                    inner_overflow,
                    *old(buf),
                    *final(buf),
                ),
        decreases old(self).model().depth(), 0int,
    {
        proof {
            reveal(stepped);
        }
        let inner_overflow = self.effect.process(duration, buf, area);
        assert(step_holds(
            *old(self).model()->NeverComplete_inner,
            duration,
            *self.model()->NeverComplete_inner,
            inner_overflow,
            *old(buf),
            *buf,
        ));
        None
    }

    /// The effect is never done.
    pub fn done(&self) -> (r: bool)
        ensures
            !r,
            r == self.model().is_done(),
    {
        false
    }

    /// The effect has no end, so it is not without length.
    pub fn is_instant(&self) -> (r: bool)
        ensures
            !r,
            r == self.model().instant(),
    {
        false
    }

    /// Puts the effect back to its start.
    pub fn reset(&mut self)
        ensures
            rewinds(old(self).model(), final(self).model()),
            rewinds(
                *old(self).model()->NeverComplete_inner,
                *final(self).model()->NeverComplete_inner,
            ),
            final(self).model() is NeverComplete,
        decreases old(self).model().depth(), 0int,
    {
        proof {
            reveal(reset_to);
        }
        self.effect.reset()
    }

    /// Turns the effect round.
    pub fn reverse(&mut self)
        ensures
            final(self).model() == old(self).model().reversed(),
            same_timing(old(self).model(), final(self).model()),
            final(self).model().area() == old(self).model().area(),
            final(self).model().filter() == old(self).model().filter(),
        decreases *old(self),
    {
        self.effect.reverse()
    }

    /// The area of the effect.
    pub fn area(&self) -> (area: Option<Rect>)
        ensures
            area == self.model().area(),
        decreases self,
    {
        self.effect.area()
    }

    /// Makes the effect work in `area`.
    pub fn set_area(&mut self, area: Rect)
        ensures
            final(self).model() == old(self).model().with_area(area),
            same_timing(old(self).model(), final(self).model()),
        decreases *old(self),
    {
        self.effect.set_area(area)
    }

    /// The filter of the effect.
    pub fn cell_selection(&self) -> (filter: Option<CellFilter>)
        ensures
            filter is Some == self.model().filter() is Some,
            filter matches Some(f) ==> Some(f@) == self.model().filter(),
        decreases self,
    {
        self.effect.cell_selection()
    }

    /// Makes the effect touch the cells that `filter` selects.
    pub fn set_cell_selection(&mut self, filter: CellFilter)
        ensures
            final(self).model() == old(self).model().with_filter(filter@),
            same_timing(old(self).model(), final(self).model()),
        decreases *old(self),
    {
        self.effect.set_cell_selection(filter)
    }

    /// A copy of the shader.
    pub fn duplicate(&self) -> (copy: NeverComplete)
        ensures
            copy.model() == self.model(),
        decreases self,
    {
        NeverComplete { effect: self.effect.duplicate() }
    }
}

impl NeverComplete {
    /// The shader does not paint by alpha.
    pub proof fn lemma_paints_by_code(self)
        ensures
            !self.model().paints_by_alpha(),
    {
    }

    /// The shader keeps no timer that its user may change.
    pub proof fn lemma_keeps_no_timer(self)
        ensures
            self.model().own_timer() is None,
    {
    }

    /// The time that the shader takes from its start to its end; `None` where it has no
    /// end.
    pub fn total_duration(&self) -> (d: Option<Duration>)
        ensures
            millis_of(d) == capped(self.model().duration()),
            self.model().timer() == lasting(capped(self.model().duration())),
        decreases self,
    {
        None
    }

    /// The course of the shader and of the effect that it runs, the shader starting at
    /// `offset`.
    pub fn as_effect_span(&self, offset: Duration) -> (span: EffectSpan)
        ensures
            span.model() == self.model().span(offset.millis()),
        decreases self,
    {
        let child = self.effect.as_effect_span(offset);
        EffectSpan::wrapping(self.name(), offset, self.total_duration(), child)
    }
}

} // verus!
