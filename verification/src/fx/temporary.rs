//! An effect with a limit on its time.

use vstd::prelude::*;
use crate::shader::{stepped, paints_cells};
use crate::effect_span::{millis_of, EffectSpan};
use crate::shader_view::{capped, lasting};
use crate::effect_span::shorter_capped;
use ratatui::buffer::Buffer;
use ratatui::layout::Rect;
use crate::cell_filter::CellFilter;
use crate::duration::Duration;
use crate::effect::Effect;
use crate::effect_timer::EffectTimer;
use crate::interpolation::Interpolation;
use crate::shader::{reset_to, rewinds, step_holds, Shader};
use crate::shader_view::{left_after_step, lemma_done_iff_nothing_left, same_timing, ShaderView};

verus! {

/// Runs its effect for the time of a timer of its own, at most: it is done when the timer
/// is, or when the effect is done by itself, whichever comes first.
pub struct TemporaryEffect {
    effect: Effect,
    duration: EffectTimer,
}

/// How a step of `delta` reaches the limit and the effect: each takes the whole step,
/// and what the step hands back is what the limit does not need of it.
pub open spec fn limited_step(
    before: ShaderView,
    delta: Duration,
    after: ShaderView,
    reported: Option<Duration>,
) -> bool {
    before matches ShaderView::Temporary { timer, .. } && after matches ShaderView::Temporary {
        timer: limit,
        ..
    } && limit == timer.advanced(delta) && (reported is Some == timer.overflow(delta) is Some) && (
    reported matches Some(o) ==> Some(o.millis()) == timer.overflow(delta))
}

impl TemporaryEffect {
    /// The state of the shader.
    pub closed spec fn model(self) -> ShaderView
        decreases self,
    {
        ShaderView::Temporary { inner: Box::new(self.effect.model()), timer: self.duration }
    }

    /// The effect, cut off after `duration`.
    pub fn new(effect: Effect, duration: Duration) -> (shader: TemporaryEffect)
        ensures
            shader.model() == (ShaderView::Temporary {
                inner: Box::new(effect.model()),
                timer: EffectTimer::fresh(duration, Interpolation::Linear),
            }),
    {
        Self { effect, duration: EffectTimer::new(duration, Interpolation::Linear) }
    }

    /// The name of the shader.
    pub fn name(&self) -> (name: &'static str)
        ensures
            name@ == self.model().name(),
    {
        "with_duration"
    }

    /// Advances the timer and the effect by `duration`.
    ///
    /// Returns the time that the timer left over, on the step that completes the timer;
    /// what the effect leaves over is not handed on.
    pub fn process(&mut self, duration: Duration, buf: &mut Buffer, area: Rect) -> (overflow:
        Option<Duration>)
        ensures
            stepped(
                old(self).model(),
                duration,
                final(self).model(),
                area,
                *old(buf),
                *final(buf),
            ),
            step_holds(
                old(self).model(),
                duration,
                final(self).model(),
                overflow,
                *old(buf),
                *final(buf),
            ),
            limited_step(old(self).model(), duration, final(self).model(), overflow),
        decreases old(self).model().depth(), 0int,
    {
        proof {
            reveal(stepped);
            self.duration.lemma_advance_any(duration);
        }
        let remaining = self.duration.process(duration);
        let _ = self.effect.process(duration, buf, area);
        remaining
    }

    /// Whether the timer or the effect is done.
    pub fn done(&self) -> (r: bool)
        ensures
            r == self.model().is_done(),
        decreases self,
    {
        self.duration.done() || self.effect.done()
    }

    /// Whether the timer or the effect takes no time.
    pub fn is_instant(&self) -> (r: bool)
        ensures
            r == self.model().instant(),
        decreases self,
    {
        self.duration.duration().is_zero() || self.effect.is_instant()
    }

    /// Puts the timer and the effect back to their start.
    pub fn reset(&mut self)
        ensures
            rewinds(old(self).model(), final(self).model()),
        decreases old(self).model().depth(), 0int,
    {
        proof {
            reveal(reset_to);
        }
        proof {
            self.duration.lemma_parts(
                Duration::from_millis_spec(0),
                self.duration.curve_kind(),
                Duration::from_millis_spec(0),
            );
        }
        self.duration.reset();
        self.effect.reset();
    }

    /// Turns the effect round.
    pub fn reverse(&mut self)
        ensures
            final(self).model() == old(self).model().reversed(),
            same_timing(old(self).model(), final(self).model()),
            final(self).model().area() == old(self).model().area(),
            final(self).model().filter() == old(self).model().filter(),
        decreases *old(self),
    {
        self.effect.reverse()
    }

    /// The area of the effect.
    pub fn area(&self) -> (area: Option<Rect>)
        ensures
            area == self.model().area(),
        decreases self,
    {
        self.effect.area()
    }

    /// Makes the effect work in `area`.
    pub fn set_area(&mut self, area: Rect)
        ensures
            final(self).model() == old(self).model().with_area(area),
            same_timing(old(self).model(), final(self).model()),
        decreases *old(self),
    {
        self.effect.set_area(area)
    }

    /// The filter of the effect.
    pub fn cell_selection(&self) -> (filter: Option<CellFilter>)
        ensures
            filter is Some == self.model().filter() is Some,
            filter matches Some(f) ==> Some(f@) == self.model().filter(),
        decreases self,
    {
        self.effect.cell_selection()
    }

    /// Makes the effect touch the cells that `strategy` selects.
    pub fn set_cell_selection(&mut self, strategy: CellFilter)
        ensures
            final(self).model() == old(self).model().with_filter(strategy@),
            same_timing(old(self).model(), final(self).model()),
        decreases *old(self),
    {
        self.effect.set_cell_selection(strategy);
    }

    /// The timer that limits the effect.
    pub fn timer(&self) -> (timer: EffectTimer)
        ensures
            timer == self.model()->Temporary_timer,
    {
        self.duration
    }

    /// The timer of the shader, to be changed in place: what the caller leaves of it is
    /// the timer that the shader goes on with.
    pub fn timer_mut(&mut self) -> (timer: &mut EffectTimer)
        ensures
            old(self).model().own_timer() == Some(*timer),
            final(self).model() == old(self).model().with_timer(*final(timer)),
    {
        &mut self.duration
    }

    /// A copy of the shader.
    pub fn duplicate(&self) -> (copy: TemporaryEffect)
        ensures
            copy.model() == self.model(),
        decreases self,
    {
        TemporaryEffect { effect: self.effect.duplicate(), duration: self.duration }
    }
}

/// Something that can be given a limit on its time.
pub trait IntoTemporaryEffect {
    /// This, cut off after `duration`.
    fn with_duration(self, duration: Duration) -> (effect: Effect);
}

impl IntoTemporaryEffect for Effect {
    fn with_duration(self, duration: Duration) -> (effect: Effect)
        ensures
            effect.model() == (ShaderView::Temporary {
                inner: Box::new(self.model()),
                timer: EffectTimer::fresh(duration, Interpolation::Linear),
            }),
    {
        Effect::new(Shader::Temporary(TemporaryEffect::new(self, duration)))
    }
}

impl TemporaryEffect {
    /// The shader does not paint by alpha.
    pub proof fn lemma_paints_by_code(self)
        ensures
            !self.model().paints_by_alpha(),
    {
    }

    /// The time that the shader takes from its start to its end; `None` where it has no
    /// end.
    pub fn total_duration(&self) -> (d: Option<Duration>)
        ensures
            millis_of(d) == capped(self.model().duration()),
            self.model().timer() == lasting(capped(self.model().duration())),
        decreases self,
    {
        let limit = self.duration.duration();
        proof {
            limit.lemma_millis_bounded();
        }
        shorter_capped(Some(limit), self.effect.total_duration())
    }

    /// The course of the shader and of the effect that it runs, the shader starting at
    /// `offset`.
    pub fn as_effect_span(&self, offset: Duration) -> (span: EffectSpan)
        ensures
            span.model() == self.model().span(offset.millis()),
        decreases self,
    {
        let child = self.effect.as_effect_span(offset);
        EffectSpan::wrapping(self.name(), offset, self.total_duration(), child)
    }
}

} // verus!
