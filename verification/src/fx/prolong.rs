//! An effect that is held at its start or at its end.

use vstd::prelude::*;
use crate::shader::{stepped, paints_cells};
use crate::effect_span::{millis_of, EffectSpan};
use crate::shader_view::{capped, lasting};
use crate::effect_span::{plus_capped, start_of_next};
use ratatui::buffer::Buffer;
use ratatui::layout::Rect;
use crate::cell_filter::CellFilter;
use crate::duration::Duration;
use crate::effect::Effect;
use crate::effect_timer::EffectTimer;
use crate::shader::{reset_to, rewinds, step_holds};
use crate::shader_view::{
    left_after_step, lemma_done_iff_nothing_left, same_timing, spare, ProlongPosition, ShaderView,
};

verus! {

/// Holds its effect for the time of a timer of its own: at the effect's first state before
/// the effect runs, or at its last state after it has run. While it is held the effect is
/// painted and not advanced. The area and the filter are those of the effect.
pub struct Prolong {
    inner: Effect,
    timer: EffectTimer,
    position: ProlongPosition,
}

/// How a step of `delta` is shared between the hold and the effect.
///
/// A hold at the start takes the step first, and the effect takes what the hold does not
/// need. A hold at the end takes what the effect does not need, and none of a step that
/// does not complete the effect.
pub open spec fn hold_step(before: ShaderView, delta: Duration, after: ShaderView) -> bool {
    before matches ShaderView::Prolong { position, timer, inner } && after matches ShaderView::Prolong {
        position: place,
        timer: held,
        inner: run,
    } && place == position && match position {
        ProlongPosition::Start => held == timer.advanced(delta) && run.remaining()
            == left_after_step(inner.remaining(), spare(delta.millis(), Some(timer.time_left()))),
        ProlongPosition::End => run.remaining() == left_after_step(
            inner.remaining(),
            delta.millis(),
        ) && held == match inner.remaining() {
            Some(t) if t <= delta.millis() => timer.advanced(
                Duration::from_millis_spec((delta.millis() - t) as u32),
            ),
            _ => timer,
        },
    }
}

impl Prolong {
    /// The state of the shader.
    pub closed spec fn model(self) -> ShaderView
        decreases self,
    {
        ShaderView::Prolong {
            position: self.position,
            timer: self.timer,
            inner: Box::new(self.inner.model()),
        }
    }

    /// The effect `inner`, held for the time of `additional_duration` at `position`.
    pub fn new(position: ProlongPosition, additional_duration: EffectTimer, inner: Effect) -> (shader:
        Prolong)
        ensures
            shader.model() == (ShaderView::Prolong {
                position,
                timer: additional_duration,
                inner: Box::new(inner.model()),
            }),
    {
        Self { inner, timer: additional_duration, position }
    }

    /// The name of the shader.
    pub fn name(&self) -> (name: &'static str)
        ensures
            name@ == self.model().name(),
    {
        "prolong"
    }

    /// Advances the hold and the effect by `duration`, whichever comes first first.
    ///
    /// Returns the time left over on the step that completes the second of the two.
    pub fn process(&mut self, duration: Duration, buf: &mut Buffer, area: Rect) -> (overflow:
        Option<Duration>)
        ensures
            paints_cells(final(self).model(), area, *old(buf), *final(buf)),
            stepped(
                old(self).model(),
                duration,
                final(self).model(),
                area,
                *old(buf),
                *final(buf),
            ),
            step_holds(
                old(self).model(),
                duration,
                final(self).model(),
                overflow,
                *old(buf),
                *final(buf),
            ),
            old(self).model().timed() ==> hold_step(old(self).model(), duration, final(self).model()),
        decreases old(self).model().depth(), 0int,
    {
        proof {
            reveal(stepped);
        }
        proof {
            self.timer.lemma_advance_any(duration);
            duration.lemma_millis_bounded();
            Duration::lemma_from_millis_spec(duration.millis() as u32);
            Duration::lemma_millis_injective(
                duration,
                Duration::from_millis_spec(duration.millis() as u32),
            );
            if old(self).model().timed() {
                lemma_done_iff_nothing_left(old(self).inner.model());
            }
        }
        match self.position {
            ProlongPosition::Start => {
                if self.timer.done() {
                    return self.inner.process(duration, buf, area);
                }
                match self.timer.process(duration) {
                    None => {
                        let _ = self.inner.process(Duration::zero(), buf, area);
                        proof {
                            if old(self).model().timed() {
                                lemma_done_iff_nothing_left(self.inner.model());
                            }
                        }
                        None
                    },
                    Some(left) => {
                        proof {
                            left.lemma_millis_bounded();
                            Duration::lemma_from_millis_spec(left.millis() as u32);
                            Duration::lemma_millis_injective(
                                left,
                                Duration::from_millis_spec(left.millis() as u32),
                            );
                        }
                        if self.inner.done() {
                            let _ = self.inner.process(Duration::zero(), buf, area);
                            Some(left)
                        } else {
                            self.inner.process(left, buf, area)
                        }
                    },
                }
            },
            ProlongPosition::End => {
                if self.inner.done() {
                    let _ = self.inner.process(Duration::zero(), buf, area);
                    return self.timer.process(duration);
                }
                match self.inner.process(duration, buf, area) {
                    None => None,
                    Some(left) => {
                        proof {
                            self.timer.lemma_advance_any(left);
                            left.lemma_millis_bounded();
                            Duration::lemma_from_millis_spec(left.millis() as u32);
                            Duration::lemma_millis_injective(
                                left,
                                Duration::from_millis_spec(left.millis() as u32),
                            );
                            if old(self).model().timed() {
                                lemma_done_iff_nothing_left(self.inner.model());
                            }
                        }
                        if self.timer.done() {
                            Some(left)
                        } else {
                            self.timer.process(left)
                        }
                    },
                }
            },
        }
    }

    /// Whether both the hold and the effect are done.
    pub fn done(&self) -> (r: bool)
        ensures
            r == self.model().is_done(),
        decreases self,
    {
        self.timer.done() && self.inner.done()
    }

    /// Whether neither the hold nor the effect takes any time.
    pub fn is_instant(&self) -> (r: bool)
        ensures
            r == self.model().instant(),
        decreases self,
    {
        self.timer.duration().is_zero() && self.inner.is_instant()
    }

    /// Puts the hold and the effect back to their start.
    pub fn reset(&mut self)
        ensures
            rewinds(old(self).model(), final(self).model()),
        decreases old(self).model().depth(), 0int,
    {
        proof {
            reveal(reset_to);
        }
        proof {
            self.timer.lemma_parts(
                Duration::from_millis_spec(0),
                self.timer.curve_kind(),
                Duration::from_millis_spec(0),
            );
        }
        self.timer.reset();
        self.inner.reset();
    }

    /// Turns the effect round, and moves the hold to its other end.
    pub fn reverse(&mut self)
        ensures
            final(self).model() == old(self).model().reversed(),
            same_timing(old(self).model(), final(self).model()),
            final(self).model().area() == old(self).model().area(),
            final(self).model().filter() == old(self).model().filter(),
        decreases *old(self),
    {
        self.position = match self.position {
            ProlongPosition::Start => ProlongPosition::End,
            ProlongPosition::End => ProlongPosition::Start,
        };
        self.inner.reverse();
    }

    /// The area of the effect.
    pub fn area(&self) -> (area: Option<Rect>)
        ensures
            area == self.model().area(),
        decreases self,
    {
        self.inner.area()
    }

    /// Makes the effect work in `area`.
    pub fn set_area(&mut self, area: Rect)
        ensures
            final(self).model() == old(self).model().with_area(area),
            same_timing(old(self).model(), final(self).model()),
        decreases *old(self),
    {
        self.inner.set_area(area)
    }

    /// The filter of the effect.
    pub fn cell_selection(&self) -> (filter: Option<CellFilter>)
        ensures
            filter is Some == self.model().filter() is Some,
            filter matches Some(f) ==> Some(f@) == self.model().filter(),
        decreases self,
    {
        self.inner.cell_selection()
    }

    /// Makes the effect touch the cells that `filter` selects.
    pub fn set_cell_selection(&mut self, filter: CellFilter)
        ensures
            final(self).model() == old(self).model().with_filter(filter@),
            same_timing(old(self).model(), final(self).model()),
        decreases *old(self),
    {
        self.inner.set_cell_selection(filter)
    }

    /// The timer of the hold.
    pub fn timer(&self) -> (timer: EffectTimer)
        ensures
            timer == self.model()->Prolong_timer,
    {
        self.timer
    }

    /// A copy of the shader.
    pub fn duplicate(&self) -> (copy: Prolong)
        ensures
            copy.model() == self.model(),
        decreases self,
    {
        Prolong { inner: self.inner.duplicate(), timer: self.timer, position: self.position }
    }
}

impl Prolong {
    /// The shader does not paint by alpha.
    pub proof fn lemma_paints_by_code(self)
        ensures
            !self.model().paints_by_alpha(),
    {
    }

    /// The shader keeps no timer that its user may change.
    pub proof fn lemma_keeps_no_timer(self)
        ensures
            self.model().own_timer() is None,
    {
    }

    /// The time that the shader takes from its start to its end; `None` where it has no
    /// end.
    pub fn total_duration(&self) -> (d: Option<Duration>)
        ensures
            millis_of(d) == capped(self.model().duration()),
            self.model().timer() == lasting(capped(self.model().duration())),
        decreases self,
    {
        let hold = self.timer.duration();
        proof {
            hold.lemma_millis_bounded();
        }
        plus_capped(Some(hold), self.inner.total_duration())
    }

    /// The course of the shader and of the effect that it runs, the shader starting at
    /// `offset`.
    pub fn as_effect_span(&self, offset: Duration) -> (span: EffectSpan)
        ensures
            span.model() == self.model().span(offset.millis()),
        decreases self,
    {
        let hold = self.timer.duration();
        proof {
            hold.lemma_millis_bounded();
        }
        let start = match self.position {
            ProlongPosition::Start => start_of_next(offset, Some(hold)),
            ProlongPosition::End => offset,
        };
        let child = self.inner.as_effect_span(start);
        EffectSpan::wrapping(self.name(), offset, self.total_duration(), child)
    }
}

} // verus!
