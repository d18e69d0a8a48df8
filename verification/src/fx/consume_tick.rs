//! An effect that is done after one step.

use vstd::prelude::*;
use crate::effect_span::{millis_of, EffectSpan};
use crate::shader_view::{capped, lasting};
use crate::duration::Duration;
use ratatui::layout::Rect;
use crate::cell_filter::CellFilter;
use crate::shader::{reset_to, rewinds, step_timing};
use crate::shader_view::{same_timing, ShaderView};

verus! {

/// Does nothing, and is done after the first step of time that it is given, whatever the
/// length of the step. It uses the step up.
#[derive(Clone, Copy, Debug, PartialEq, Eq, Structural)]
pub struct ConsumeTick {
    has_consumed_tick: bool,
}

impl ConsumeTick {
    /// The state of the shader.
    pub closed spec fn model(self) -> ShaderView {
        ShaderView::ConsumeTick { consumed: self.has_consumed_tick }
    }

    /// An effect that has not seen a step yet.
    pub fn new() -> (tick: ConsumeTick)
        ensures
            tick.model() == (ShaderView::ConsumeTick { consumed: false }),
    {
        ConsumeTick { has_consumed_tick: false }
    }

    /// The name of the shader.
    pub fn name(&self) -> (name: &'static str)
        ensures
            name@ == self.model().name(),
    {
        "consume_tick"
    }

    /// Takes the step. The first step completes the effect and leaves no time over; later
    /// steps change nothing and hand nothing back.
    pub fn process(&mut self, duration: Duration) -> (overflow: Option<Duration>)
        ensures
            old(self).model() is ConsumeTick,
            final(self).model() == (ShaderView::ConsumeTick { consumed: true }),
            old(self).model().is_done() ==> overflow is None,
            !old(self).model().is_done() ==> overflow == Some(Duration::from_millis_spec(0)),
            overflow matches Some(o) ==> o.millis() == 0,
            step_timing(old(self).model(), duration, final(self).model(), overflow),
    {
        if self.has_consumed_tick {
            None
        } else {
            self.has_consumed_tick = true;
            Some(Duration::zero())
        }
    }

    /// Whether the shader is done.
    pub fn done(&self) -> (r: bool)
        ensures
            r == self.model().is_done(),
    {
        self.has_consumed_tick
    }

    /// Whether the effect takes no time: it takes one step, which may be of any length.
    pub fn is_instant(&self) -> (r: bool)
        ensures
            r == self.model().instant(),
    {
        true
    }

    /// Makes the effect wait for a step again.
    pub fn reset(&mut self)
        ensures
            final(self).model() == (ShaderView::ConsumeTick { consumed: false }),
            rewinds(old(self).model(), final(self).model()),
    {
        proof {
            reveal(reset_to);
        }
        self.has_consumed_tick = false;
    }

    /// Turns the effect round; it is the same both ways.
    pub fn reverse(&mut self)
        ensures
            final(self).model() == old(self).model().reversed(),
            same_timing(old(self).model(), final(self).model()),
            final(self).model().area() == old(self).model().area(),
            final(self).model().filter() == old(self).model().filter(),
    {
    }

    /// The effect works in no area.
    pub fn area(&self) -> (area: Option<Rect>)
        ensures
            area == self.model().area(),
    {
        None
    }

    /// The effect works in no area: nothing changes.
    pub fn set_area(&mut self, area: Rect)
        ensures
            final(self).model() == old(self).model().with_area(area),
            same_timing(old(self).model(), final(self).model()),
    {
    }

    /// The effect touches no cells.
    pub fn cell_selection(&self) -> (filter: Option<CellFilter>)
        ensures
            filter is None,
            self.model().filter() is None,
    {
        None
    }

    /// The effect touches no cells: nothing changes.
    pub fn set_cell_selection(&mut self, filter: CellFilter)
        ensures
            final(self).model() == old(self).model().with_filter(filter@),
            same_timing(old(self).model(), final(self).model()),
    {
    }
}

impl Default for ConsumeTick {
    fn default() -> (tick: ConsumeTick)
        ensures
            tick.model() == (ShaderView::ConsumeTick { consumed: false }),
    {
        ConsumeTick::new()
    }
}

impl ConsumeTick {
    /// The shader does not paint by alpha.
    pub proof fn lemma_paints_by_code(self)
        ensures
            !self.model().paints_by_alpha(),
    {
    }

    /// The shader keeps no timer that its user may change.
    pub proof fn lemma_keeps_no_timer(self)
        ensures
            self.model().own_timer() is None,
    {
    }

    /// The time that the effect takes: none, though it takes a step.
    pub fn total_duration(&self) -> (d: Option<Duration>)
        ensures
            millis_of(d) == capped(self.model().duration()),
            self.model().timer() == lasting(capped(self.model().duration())),
    {
        Some(Duration::zero())
    }

    /// The course of the effect in time, the effect starting at `offset`.
    pub fn as_effect_span(&self, offset: Duration) -> (span: EffectSpan)
        ensures
            span.model() == self.model().span(offset.millis()),
    {
        EffectSpan::leaf(self.name(), offset, self.total_duration())
    }
}

} // verus!
