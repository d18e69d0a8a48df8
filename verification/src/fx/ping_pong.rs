//! An effect that runs forwards, then backwards.

use vstd::prelude::*;
use crate::shader::{paints_cells, stepped, turn_at};
use crate::effect_span::{millis_of, EffectSpan};
use crate::shader_view::{capped, lasting};
use crate::effect_span::plus_capped;
use ratatui::buffer::Buffer;
use ratatui::layout::Rect;
use crate::cell_filter::CellFilter;
use crate::duration::Duration;
use crate::effect::Effect;
use crate::shader::{reset_to, rewinds, step_holds};
use crate::shader_view::{
    left_after_step, lemma_done_iff_nothing_left, same_timing, spare, ShaderView,
};

verus! {

/// Runs its effect forwards to its end, then turns it round and runs it back to its
/// start. It takes twice the time of the effect, and is done when the way back is.
///
/// The step that completes the way forwards goes on into the way back with the time that
/// it has left.
pub struct PingPong {
    fx: Effect,
    is_reversing: bool,
}

/// How a step of `delta` reaches the effect of a shader that plays it forwards and then
/// backwards.
///
/// On the way back the effect takes the step. On the way forwards it takes the step too;
/// where the step completes the way forwards, the shader turns round, and the effect
/// starts on the way back with what is over of the step. An effect that takes no time
/// is never turned round.
pub open spec fn turn_step(before: ShaderView, delta: Duration, after: ShaderView) -> bool {
    before matches ShaderView::PingPong { fx, reversing } && after matches ShaderView::PingPong {
        fx: run,
        reversing: turned,
    } && if reversing {
        turned && run.remaining() == left_after_step(fx.remaining(), delta.millis())
    } else if fx.remaining() matches Some(t) && t <= delta.millis() && !(t == 0 && fx.instant()) {
        turned && run.remaining() == left_after_step(
            fx.duration(),
            spare(delta.millis(), fx.remaining()),
        )
    } else {
        !turned && run.remaining() == left_after_step(fx.remaining(), delta.millis())
    }
}

impl PingPong {
    /// The state of the shader.
    pub closed spec fn model(self) -> ShaderView
        decreases self,
    {
        ShaderView::PingPong { fx: Box::new(self.fx.model()), reversing: self.is_reversing }
    }

    /// The effect, forwards and then backwards.
    pub fn new(fx: Effect) -> (shader: PingPong)
        ensures
            shader.model() == (ShaderView::PingPong { fx: Box::new(fx.model()), reversing: false }),
    {
        PingPong { fx, is_reversing: false }
    }

    /// The name of the shader.
    pub fn name(&self) -> (name: &'static str)
        ensures
            name@ == self.model().name(),
    {
        "ping_pong"
    }

    /// Advances the effect by `duration`, turning it round where the way forwards ends.
    ///
    /// Returns the time left over on the step that completes the way back.
    pub fn process(&mut self, duration: Duration, buf: &mut Buffer, area: Rect) -> (overflow:
        Option<Duration>)
        ensures
            paints_cells(final(self).model(), area, *old(buf), *final(buf)),
            stepped(
                old(self).model(),
                duration,
                final(self).model(),
                area,
                *old(buf),
                *final(buf),
            ),
            step_holds(
                old(self).model(),
                duration,
                final(self).model(),
                overflow,
                *old(buf),
                *final(buf),
            ),
            old(self).model().timed() ==> turn_step(old(self).model(), duration, final(self).model()),
        decreases old(self).model().depth(), 0int,
    {
        proof {
            reveal(stepped);
        }
        proof {
            if old(self).model().timed() {
                lemma_done_iff_nothing_left(old(self).fx.model());
            }
        }
        if self.is_reversing {
            return self.fx.process(duration, buf, area);
        }
        if self.fx.done() {
            // nothing is left of the way forwards
            if self.fx.is_instant() {
                return None;
            }
            let ghost mid = self.fx.model();
            self.fx.reverse();
            self.fx.reset();
            self.is_reversing = true;
            let ghost start = self.fx.model();
            proof {
                if old(self).model().timed() {
                    lemma_done_iff_nothing_left(self.fx.model());
                }
            }
            let back = self.fx.process(duration, buf, area);
            proof {
                let chain = seq![*old(buf), *old(buf), *buf];
                assert(turn_at(mid, start, duration, chain, *old(buf), *buf));
            }
            return back;
        }
        match self.fx.process(duration, buf, area) {
            None => None,
            Some(left) => {
                let ghost mid = self.fx.model();
                let ghost within = *buf;
                self.fx.reverse();
                self.fx.reset();
                self.is_reversing = true;
                let ghost start = self.fx.model();
                proof {
                    if old(self).model().timed() {
                        lemma_done_iff_nothing_left(self.fx.model());
                    }
                }
                let back = if self.fx.done() {
                    Some(left)
                } else if left.is_zero() {
                    None
                } else {
                    self.fx.process(left, buf, area)
                };
                proof {
                    let chain = seq![*old(buf), within, *buf];
                    assert(turn_at(mid, start, left, chain, *old(buf), *buf));
                }
                back
            },
        }
    }

    /// Whether the way back is done.
    pub fn done(&self) -> (r: bool)
        ensures
            r == self.model().is_done(),
        decreases self,
    {
        self.fx.done() && (self.is_reversing || self.fx.is_instant())
    }

    /// Whether the effect takes no time.
    pub fn is_instant(&self) -> (r: bool)
        ensures
            r == self.model().instant(),
        decreases self,
    {
        self.fx.is_instant()
    }

    /// Puts the effect back to the start of its way forwards.
    pub fn reset(&mut self)
        ensures
            rewinds(old(self).model(), final(self).model()),
        decreases old(self).model().depth(), 0int,
    {
        proof {
            reveal(reset_to);
        }
        if self.is_reversing {
            self.fx.reverse();
            self.is_reversing = false;
        }
        self.fx.reset();
    }

    /// Turns the effect round.
    pub fn reverse(&mut self)
        ensures
            final(self).model() == old(self).model().reversed(),
            same_timing(old(self).model(), final(self).model()),
            final(self).model().area() == old(self).model().area(),
            final(self).model().filter() == old(self).model().filter(),
        decreases *old(self),
    {
        self.fx.reverse()
    }

    /// The area of the effect.
    pub fn area(&self) -> (area: Option<Rect>)
        ensures
            area == self.model().area(),
        decreases self,
    {
        self.fx.area()
    }

    /// Makes the effect work in `area`.
    pub fn set_area(&mut self, area: Rect)
        ensures
            final(self).model() == old(self).model().with_area(area),
            same_timing(old(self).model(), final(self).model()),
        decreases *old(self),
    {
        self.fx.set_area(area)
    }

    /// The filter of the effect.
    pub fn cell_selection(&self) -> (filter: Option<CellFilter>)
        ensures
            filter is Some == self.model().filter() is Some,
            filter matches Some(f) ==> Some(f@) == self.model().filter(),
        decreases self,
    {
        self.fx.cell_selection()
    }

    /// Makes the effect touch the cells that `filter` selects.
    pub fn set_cell_selection(&mut self, filter: CellFilter)
        ensures
            final(self).model() == old(self).model().with_filter(filter@),
            same_timing(old(self).model(), final(self).model()),
        decreases *old(self),
    {
        self.fx.set_cell_selection(filter)
    }

    /// A copy of the shader.
    pub fn duplicate(&self) -> (copy: PingPong)
        ensures
            copy.model() == self.model(),
        decreases self,
    {
        PingPong { fx: self.fx.duplicate(), is_reversing: self.is_reversing }
    }
}

impl PingPong {
    /// The shader does not paint by alpha.
    pub proof fn lemma_paints_by_code(self)
        ensures
            !self.model().paints_by_alpha(),
    {
    }

    /// The shader keeps no timer that its user may change.
    pub proof fn lemma_keeps_no_timer(self)
        ensures
            self.model().own_timer() is None,
    {
    }

    /// The time that the shader takes from its start to its end; `None` where it has no
    /// end.
    pub fn total_duration(&self) -> (d: Option<Duration>)
        ensures
            millis_of(d) == capped(self.model().duration()),
            self.model().timer() == lasting(capped(self.model().duration())),
        decreases self,
    {
        let d = self.fx.total_duration();
        plus_capped(d, d)
    }

    /// The course of the shader and of the effect that it runs, the shader starting at
    /// `offset`.
    pub fn as_effect_span(&self, offset: Duration) -> (span: EffectSpan)
        ensures
            span.model() == self.model().span(offset.millis()),
        decreases self,
    {
        let child = self.fx.as_effect_span(offset);
        EffectSpan::wrapping(self.name(), offset, self.total_duration(), child)
    }
}

} // verus!
