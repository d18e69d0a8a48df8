//! An effect that lets time pass.

use vstd::prelude::*;
use crate::effect_span::{millis_of, EffectSpan};
use crate::shader_view::capped;
use crate::duration::Duration;
use crate::effect_timer::EffectTimer;
use ratatui::layout::Rect;
use crate::cell_filter::CellFilter;
use crate::shader::{reset_to, rewinds, step_timing};
use crate::shader_view::{same_timing, ShaderView};

verus! {

/// Does nothing for the time of its timer.
#[derive(Clone, Copy, Debug, PartialEq, Eq, Structural)]
pub struct Sleep {
    timer: EffectTimer,
}

impl Sleep {
    /// The state of the shader.
    pub closed spec fn model(self) -> ShaderView {
        ShaderView::Sleep { timer: self.timer }
    }

    /// A pause of the timer's duration.
    pub fn new(timer: EffectTimer) -> (sleep: Sleep)
        ensures
            sleep.model() == (ShaderView::Sleep { timer }),
    {
        Sleep { timer }
    }

    /// The name of the shader.
    pub fn name(&self) -> (name: &'static str)
        ensures
            name@ == self.model().name(),
    {
        "sleep"
    }

    /// Lets `duration` pass, and hands back what the pause did not need of it.
    pub fn process(&mut self, duration: Duration) -> (overflow: Option<Duration>)
        ensures
            old(self).model() is Sleep,
            final(self).model() == (ShaderView::Sleep {
                timer: old(self).model()->Sleep_timer.advanced(duration),
            }),
            step_timing(old(self).model(), duration, final(self).model(), overflow),
    {
        proof {
            self.timer.lemma_advance_any(duration);
        }
        self.timer.process(duration)
    }

    /// Whether the shader is done.
    pub fn done(&self) -> (r: bool)
        ensures
            r == self.model().is_done(),
    {
        self.timer.done()
    }

    /// Whether the pause has no length.
    pub fn is_instant(&self) -> (r: bool)
        ensures
            r == self.model().instant(),
    {
        self.timer.duration().is_zero()
    }

    /// The timer of the shader.
    pub fn timer(&self) -> (timer: EffectTimer)
        ensures
            self.model() == (ShaderView::Sleep { timer }),
            self.model().timer() == Some(timer),
    {
        self.timer
    }

    /// The timer of the shader, to be changed in place: what the caller leaves of it is
    /// the timer that the shader goes on with.
    pub fn timer_mut(&mut self) -> (timer: &mut EffectTimer)
        ensures
            old(self).model().own_timer() == Some(*timer),
            final(self).model() == old(self).model().with_timer(*final(timer)),
    {
        &mut self.timer
    }

    /// Puts the pause back to its start.
    pub fn reset(&mut self)
        ensures
            final(self).model() == (ShaderView::Sleep {
                timer: old(self).model()->Sleep_timer.rewound(),
            }),
            rewinds(old(self).model(), final(self).model()),
    {
        proof {
            reveal(reset_to);
        }
        proof {
            self.timer.lemma_parts(
                Duration::from_millis_spec(0),
                self.timer.curve_kind(),
                Duration::from_millis_spec(0),
            );
        }
        self.timer.reset();
    }

    /// Turns the pause round; a pause is the same both ways.
    pub fn reverse(&mut self)
        ensures
            final(self).model() == old(self).model().reversed(),
            same_timing(old(self).model(), final(self).model()),
            final(self).model().area() == old(self).model().area(),
            final(self).model().filter() == old(self).model().filter(),
    {
        proof {
            self.timer.lemma_parts(
                Duration::from_millis_spec(0),
                self.timer.curve_kind(),
                Duration::from_millis_spec(0),
            );
        }
        self.timer = self.timer.reversed();
    }

    /// A pause works in no area.
    pub fn area(&self) -> (area: Option<Rect>)
        ensures
            area == self.model().area(),
    {
        None
    }

    /// A pause works in no area: nothing changes.
    pub fn set_area(&mut self, area: Rect)
        ensures
            final(self).model() == old(self).model().with_area(area),
            same_timing(old(self).model(), final(self).model()),
    {
    }

    /// A pause touches no cells.
    pub fn cell_selection(&self) -> (filter: Option<CellFilter>)
        ensures
            filter is None,
            self.model().filter() is None,
    {
        None
    }

    /// A pause touches no cells: nothing changes.
    pub fn set_cell_selection(&mut self, filter: CellFilter)
        ensures
            final(self).model() == old(self).model().with_filter(filter@),
            same_timing(old(self).model(), final(self).model()),
    {
    }
}

impl Sleep {
    /// The shader does not paint by alpha.
    pub proof fn lemma_paints_by_code(self)
        ensures
            !self.model().paints_by_alpha(),
    {
    }

    /// The time that the shader takes from its start to its end.
    pub fn total_duration(&self) -> (d: Option<Duration>)
        ensures
            millis_of(d) == capped(self.model().duration()),
    {
        let d = self.timer.duration();
        proof {
            d.lemma_millis_bounded();
        }
        Some(d)
    }

    /// The course of the shader in time, the shader starting at `offset`.
    pub fn as_effect_span(&self, offset: Duration) -> (span: EffectSpan)
        ensures
            span.model() == self.model().span(offset.millis()),
    {
        EffectSpan::leaf(self.name(), offset, self.total_duration())
    }
}

} // verus!
