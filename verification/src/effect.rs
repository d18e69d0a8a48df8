//! The handle on a shader.

use vstd::prelude::*;
use crate::buffer::{buffer_area, buffer_cells};
use crate::shader::{area_for, stepped, paints_at, same_frame};
use crate::cell_iter::{is_selection, CellIterator};
use crate::interpolation::{clamp_alpha, clamped_alpha, ALPHA_ONE};
use crate::effect_span::{millis_of, EffectSpan};
use crate::shader_view::capped;
use crate::effect_timer::EffectTimer;
use ratatui::buffer::Buffer;
use ratatui::layout::Rect;
use crate::cell_filter::CellFilter;
use crate::duration::Duration;
use crate::shader::{rewinds, step_holds, Shader};
use crate::shader_view::{same_timing, ShaderView};

verus! {

/// An effect: the owner of a shader, through which the shader is driven.
///
/// An effect is built once for the animation that is wanted, driven on every frame with
/// [`Effect::process`], and dropped when it is done.
pub struct Effect {
    shader: Box<Shader>,
}

/// The states of the effects of a list.
pub open spec fn effect_views(effects: Seq<Effect>) -> Seq<ShaderView>
    decreases effects,
{
    Seq::new(
        effects.len(),
        |i: int|
            if 0 <= i < effects.len() {
                effects[i].model()
            } else {
                ShaderView::ConsumeTick { consumed: true }
            },
    )
}

impl Effect {
    /// The state of the effect's shader.
    pub closed spec fn model(self) -> ShaderView
        decreases self,
    {
        self.shader.model()
    }

    /// The effect that drives `shader`.
    pub fn new(shader: Shader) -> (effect: Effect)
        ensures
            effect.model() == shader.model(),
    {
        Effect { shader: Box::new(shader) }
    }

    /// The name of the effect's shader.
    pub fn name(&self) -> (name: &'static str)
        ensures
            name@ == self.model().name(),
        decreases self,
    {
        self.shader.name()
    }

    /// Advances the effect by `duration` and lets it paint into `buf`: within its own
    /// area if it has one, else within `area`.
    ///
    /// Returns the time left over on the step that completes the effect.
    pub fn process(&mut self, duration: Duration, buf: &mut Buffer, area: Rect) -> (overflow:
        Option<Duration>)
        ensures
            step_holds(
                old(self).model(),
                duration,
                final(self).model(),
                overflow,
                *old(buf),
                *final(buf),
            ),
            stepped(
                old(self).model(),
                duration,
                final(self).model(),
                area_for(old(self).model(), area),
                *old(buf),
                *final(buf),
            ),
        decreases old(self).model().depth(), 2int,
    {
        let area = match self.shader.area() {
            Some(own) => own,
            None => area,
        };
        self.shader.process(duration, buf, area)
    }

    /// Whether the effect is done.
    pub fn done(&self) -> (r: bool)
        ensures
            r == self.model().is_done(),
        decreases self,
    {
        self.shader.done()
    }

    /// Whether the effect still runs.
    pub fn running(&self) -> (r: bool)
        ensures
            r == !self.model().is_done(),
    {
        !self.done()
    }

    /// Whether the effect takes no time from its start to its end.
    pub fn is_instant(&self) -> (r: bool)
        ensures
            r == self.model().instant(),
        decreases self,
    {
        self.shader.is_instant()
    }

    /// Puts the effect back to its start.
    pub fn reset(&mut self)
        ensures
            rewinds(old(self).model(), final(self).model()),
        decreases old(self).model().depth(), 2int,
    {
        self.shader.reset()
    }

    /// Turns the effect round, so that it runs from its end to its start.
    pub fn reverse(&mut self)
        ensures
            final(self).model() == old(self).model().reversed(),
            same_timing(old(self).model(), final(self).model()),
            final(self).model().area() == old(self).model().area(),
            final(self).model().filter() == old(self).model().filter(),
        decreases *old(self),
    {
        self.shader.reverse()
    }

    /// The effect, turned round.
    pub fn reversed(self) -> (effect: Effect)
        ensures
            effect.model() == self.model().reversed(),
            same_timing(self.model(), effect.model()),
            effect.model().area() == self.model().area(),
            effect.model().filter() == self.model().filter(),
    {
        let mut effect = self;
        effect.reverse();
        effect
    }

    /// The area that the effect works in instead of the area that it is given.
    pub fn area(&self) -> (area: Option<Rect>)
        ensures
            area == self.model().area(),
        decreases self,
    {
        self.shader.area()
    }

    /// Makes the effect work in `area`, whatever area it is given.
    pub fn set_area(&mut self, area: Rect)
        ensures
            final(self).model() == old(self).model().with_area(area),
            same_timing(old(self).model(), final(self).model()),
        decreases *old(self),
    {
        self.shader.set_area(area)
    }

    /// The effect, made to work in `area`.
    pub fn with_area(self, area: Rect) -> (effect: Effect)
        ensures
            effect.model() == self.model().with_area(area),
            same_timing(self.model(), effect.model()),
    {
        let mut effect = self;
        effect.set_area(area);
        effect
    }

    /// The filter that selects the cells that the effect touches, if it has one.
    pub fn cell_selection(&self) -> (filter: Option<CellFilter>)
        ensures
            filter is Some == self.model().filter() is Some,
            filter matches Some(f) ==> Some(f@) == self.model().filter(),
        decreases self,
    {
        self.shader.cell_selection()
    }

    /// Makes the effect touch the cells that `filter` selects.
    pub fn set_cell_selection(&mut self, filter: CellFilter)
        ensures
            final(self).model() == old(self).model().with_filter(filter@),
            same_timing(old(self).model(), final(self).model()),
        decreases *old(self),
    {
        self.shader.set_cell_selection(filter)
    }

    /// The effect, made to touch the cells that `filter` selects.
    pub fn with_cell_selection(self, filter: CellFilter) -> (effect: Effect)
        ensures
            effect.model() == self.model().with_filter(filter@),
            same_timing(self.model(), effect.model()),
    {
        let mut effect = self;
        effect.set_cell_selection(filter);
        effect
    }

    /// The time that the effect takes from its start to its end; `None` where it has no
    /// end. A time too long for a duration counts as the longest duration.
    pub fn total_duration(&self) -> (d: Option<Duration>)
        ensures
            millis_of(d) == capped(self.model().duration()),
        decreases self,
    {
        self.shader.total_duration()
    }

    /// The timer of the effect, if it has one: the timer of a shader that paints cells or
    /// lets time pass; for every other shader that has an end, a timer made for the time
    /// that it takes.
    pub fn timer(&self) -> (timer: Option<EffectTimer>)
        ensures
            timer == self.model().timer(),
    {
        self.shader.timer()
    }

    /// Paints into `buf` at `alpha`, within `area`: for the effects that paint by alpha.
    /// Every other effect leaves the buffer as it is; it paints when it takes a step.
    pub fn execute(&self, alpha: u32, area: Rect, buf: &mut Buffer)
        ensures
            same_frame(*old(buf), *final(buf)),
            paints_at(self.model(), clamped_alpha(alpha), area, *old(buf), *final(buf)),
            !self.model().paints_by_alpha() ==> *final(buf) == *old(buf),
    {
        let alpha: u32 = clamp_alpha(alpha);
        self.shader.execute(alpha, area, buf)
    }

    /// The cells of `buf` within `area` that the filter of the effect selects; all of
    /// them where the effect has no filter.
    pub fn cell_iter(&self, buf: &Buffer, area: Rect) -> (iter: CellIterator)
        ensures
            is_selection(
                iter.positions(),
                buffer_cells(*buf),
                buffer_area(*buf),
                area,
                self.model().filter(),
            ),
    {
        self.shader.cell_iter(buf, area)
    }

    /// The timer that the effect keeps for itself, to be changed in place; `None` where
    /// it keeps none.
    pub fn timer_mut(&mut self) -> (timer: Option<&mut EffectTimer>)
        ensures
            match timer {
                Some(t) => old(self).model().own_timer() == Some(*t) && final(self).model() == old(
                    self,
                ).model().with_timer(*final(t)),
                None => old(self).model().own_timer() is None && final(self).model() == old(
                    self,
                ).model(),
            },
    {
        self.shader.timer_mut()
    }

    /// The course of the effect and of every effect in its tree: their names, when they
    /// start, and how long they take. The effect itself starts at `offset`.
    pub fn as_effect_span(&self, offset: Duration) -> (span: EffectSpan)
        ensures
            span.model() == self.model().span(offset.millis()),
        decreases self,
    {
        self.shader.as_effect_span(offset)
    }

    /// A copy of the effect, with a shader tree of its own.
    pub fn duplicate(&self) -> (copy: Effect)
        ensures
            copy.model() == self.model(),
        decreases self,
    {
        Effect { shader: Box::new(self.shader.duplicate()) }
    }
}

impl Clone for Effect {
    fn clone(&self) -> (copy: Effect)
        ensures
            copy.model() == self.model(),
    {
        self.duplicate()
    }
}

/// A surface that effects can be rendered on.
pub trait EffectRenderer {
    /// Advances `effect` by `last_tick` and lets it paint on this surface, within `area`.
    /// The surface keeps its area and the number of its cells.
    fn render_effect(&mut self, effect: &mut Effect, area: Rect, last_tick: Duration);
}

impl EffectRenderer for Buffer {
    fn render_effect(&mut self, effect: &mut Effect, area: Rect, last_tick: Duration)
        ensures
            exists|overflow: Option<Duration>|
                #[trigger] step_holds(
                    old(effect).model(),
                    last_tick,
                    final(effect).model(),
                    overflow,
                    *old(self),
                    *final(self),
                ),
            stepped(
                old(effect).model(),
                last_tick,
                final(effect).model(),
                area_for(old(effect).model(), area),
                *old(self),
                *final(self),
            ),
    {
        let overflow = effect.process(last_tick, self, area);
        assert(step_holds(old(effect).model(), last_tick, effect.model(), overflow, *old(self), *self));
    }
}

impl View for Effect {
    type V = ShaderView;

    open spec fn view(&self) -> ShaderView {
        self.model()
    }
}

} // verus!
