//! An effect that runs again and again.

use vstd::prelude::*;
use crate::shader::{stepped, paints_cells};
use crate::effect_span::{millis_of, EffectSpan};
use crate::shader_view::{capped, lasting};
use crate::effect_span::times_capped;
use ratatui::buffer::Buffer;
use ratatui::layout::Rect;
use crate::cell_filter::CellFilter;
use crate::duration::Duration;
use crate::effect::Effect;
use crate::effect_timer::EffectTimer;
use crate::interpolation::Interpolation;
use crate::shader::{
    is_course, legs_stepped, lemma_course_grows, links, reset_to, rewinds, same_frame, step_holds,
    Leg,
};
use crate::shader_view::{
    lemma_done_iff_nothing_left,
    plus,
    same_timing,
    times,
    RepeatMode,
    ShaderView,
};

verus! {

/// Runs its effect again and again: without end, a number of times, or for a span of
/// time. Whenever the effect is done it is put back to its start, and the step that
/// completed it goes on into the next run with the time that it has left.
///
/// A repetition for a span of time is done when that time has passed, wherever the
/// current run is by then.
pub struct Repeat {
    fx: Effect,
    mode: RepeatMode,
    runs: u32,
    timer: EffectTimer,
}

/// One more run adds the time of one run.
pub proof fn lemma_times_step(n: nat, a: Option<nat>)
    requires
        n > 0,
    ensures
        times(n, a) == plus(a, times((n - 1) as nat, a)),
{
    if let Some(x) = a {
        assert(n * x == x + (n - 1) * x) by (nonlinear_arith)
            requires
                n > 0,
        ;
    }
}

/// A number of runs takes no time exactly when there is no run or a run takes none.
pub proof fn lemma_times_nothing(n: nat, a: Option<nat>)
    ensures
        times(n, a) == Some(0nat) <==> n == 0 || a == Some(0nat),
{
    if let Some(x) = a {
        assert(n * x == 0 <==> n == 0 || x == 0) by (nonlinear_arith);
    }
}

/// What a step of `delta` does to the count of a repetition: the mode stays; a
/// repetition for a span of time has `delta` less of it left; a repetition by number has
/// no more runs left than before.
pub open spec fn repeat_step(before: ShaderView, delta: Duration, after: ShaderView) -> bool {
    before matches ShaderView::Repeat { mode, runs, timer, .. } && after matches ShaderView::Repeat {
        mode: same,
        runs: left,
        timer: limit,
        ..
    } && same == mode && match mode {
        RepeatMode::Forever => left == runs && limit == timer,
        RepeatMode::Times(_) => left <= runs && limit == timer,
        RepeatMode::Duration(_) => left == runs && limit == timer.advanced(delta),
    }
}

/// What an effect that is run again and again has left after `delta` milliseconds, where
/// it had `r` milliseconds left of the `d` that one run takes.
///
/// Time that a run does not need goes on into the next run. A step that ends a run to
/// the millisecond leaves the effect at the end of that run; an effect that is at the end
/// of a run starts the next with the step. Runs that take no time leave nothing.
pub open spec fn left_in_cycle(r: nat, d: nat, delta: nat) -> nat
    decreases delta, (if r == 0 { 1int } else { 0int }),
{
    if r == 0 {
        if d == 0 {
            0
        } else {
            left_in_cycle(d, d, delta)
        }
    } else if delta < r {
        (r - delta) as nat
    } else if delta == r {
        0
    } else {
        left_in_cycle(0, d, (delta - r) as nat)
    }
}

impl Repeat {
    /// The state of the shader.
    pub closed spec fn model(self) -> ShaderView
        decreases self,
    {
        ShaderView::Repeat {
            fx: Box::new(self.fx.model()),
            mode: self.mode,
            runs: self.runs,
            timer: self.timer,
        }
    }

    /// The runs that a repetition starts with.
    pub open spec fn first_runs(mode: RepeatMode) -> u32 {
        match mode {
            RepeatMode::Times(n) => n,
            _ => 0,
        }
    }

    /// The timer that a repetition starts with.
    pub open spec fn first_timer(mode: RepeatMode) -> EffectTimer {
        match mode {
            RepeatMode::Duration(d) => EffectTimer::fresh(d, Interpolation::Linear),
            _ => EffectTimer::fresh(Duration::from_millis_spec(0), Interpolation::Linear),
        }
    }

    /// The effect `fx`, repeated as `mode` says.
    pub fn new(fx: Effect, mode: RepeatMode) -> (shader: Repeat)
        ensures
            shader.model() == (ShaderView::Repeat {
                fx: Box::new(fx.model()),
                mode,
                runs: Repeat::first_runs(mode),
                timer: Repeat::first_timer(mode),
            }),
    {
        let runs: u32 = match mode {
            RepeatMode::Times(n) => n,
            _ => 0,
        };
        let timer = match mode {
            RepeatMode::Duration(d) => EffectTimer::new(d, Interpolation::Linear),
            _ => EffectTimer::new(Duration::zero(), Interpolation::Linear),
        };
        Self { fx, mode, runs, timer }
    }

    /// The name of the shader.
    pub fn name(&self) -> (name: &'static str)
        ensures
            name@ == self.model().name(),
    {
        "repeat"
    }

    /// Gives the effect `duration`, putting it back to its start whenever it is done, as
    /// long as time is left.
    fn cycle(&mut self, duration: Duration, buf: &mut Buffer, area: Rect)
        ensures
            same_frame(*old(buf), *final(buf)),
            final(self).mode == old(self).mode,
            final(self).runs == old(self).runs,
            final(self).timer == old(self).timer,
            final(self).fx.model().depth() == old(self).fx.model().depth(),
            final(self).fx.model().timed() == old(self).fx.model().timed(),
            final(self).fx.model().duration() == old(self).fx.model().duration(),
            old(self).fx.model().timed() ==> match (
                old(self).fx.model().remaining(),
                old(self).fx.model().duration(),
            ) {
                (Some(r), Some(d)) => final(self).fx.model().remaining() == Some(
                    left_in_cycle(r, d, duration.millis()),
                ),
                (None, _) => final(self).fx.model().remaining() is None,
                _ => true,
            },
            exists|legs: Seq<Leg>, chain: Seq<Buffer>|
                #[trigger] is_course(
                    old(self).fx.model(),
                    legs,
                    final(self).fx.model(),
                    chain,
                    *old(buf),
                    *final(buf),
                ) && legs_stepped(legs, chain, duration, area, old(self).fx.model().depth() + 1),
        decreases old(self).model().depth(), 0int, 0int,
    {
        let ghost timed = old(self).fx.model().timed();
        let ghost first = old(self).fx.model().remaining();
        let ghost length = old(self).fx.model().duration();
        let ghost was = old(self).fx.model();
        let ghost bound = old(self).fx.model().depth() + 1;
        let ghost mut legs: Seq<Leg> = Seq::empty();
        let ghost mut chain: Seq<Buffer> = seq![*buf];
        proof {
            assert(links(was, legs) && legs_stepped(legs, chain, duration, area, bound)) by {
                reveal(links);
                reveal(legs_stepped);
            }
        }
        let mut left = duration;
        loop
            invariant
                was == old(self).fx.model(),
                bound == old(self).fx.model().depth() + 1,
                left.millis() <= duration.millis(),
                chain.len() == legs.len() + 1,
                chain[0] == *old(buf),
                chain.last() == *buf,
                links(was, legs),
                legs_stepped(legs, chain, duration, area, bound),
                legs.len() == 0 ==> self.fx.model() == was,
                legs.len() > 0 ==> self.fx.model() == legs.last().end && self.fx.model().is_done(),
                timed == old(self).fx.model().timed(),
                first == old(self).fx.model().remaining(),
                length == old(self).fx.model().duration(),
                timed && first is None ==> self.fx.model().remaining() is None,
                timed ==> match (first, length, self.fx.model().remaining()) {
                    (Some(r), Some(d), Some(now)) => left_in_cycle(now, d, left.millis())
                        == left_in_cycle(r, d, duration.millis()),
                    (Some(_), Some(_), None) => false,
                    _ => true,
                },
                same_frame(*old(buf), *buf),
                self.mode == old(self).mode,
                self.runs == old(self).runs,
                self.timer == old(self).timer,
                self.fx.model().depth() == old(self).fx.model().depth(),
                self.fx.model().timed() == old(self).fx.model().timed(),
                self.fx.model().duration() == old(self).fx.model().duration(),
            decreases left.millis(),
        {
            proof {
                if timed {
                    lemma_done_iff_nothing_left(self.fx.model());
                }
            }
            if self.fx.done() {
                self.fx.reset();
                proof {
                    if timed {
                        lemma_done_iff_nothing_left(self.fx.model());
                        if let (Some(r), Some(d)) = (first, length) {
                            assert(self.fx.model().remaining() == Some(d));
                            assert(left_in_cycle(0, d, left.millis()) == if d == 0 {
                                0
                            } else {
                                left_in_cycle(d, d, left.millis())
                            });
                        }
                    }
                }
                if self.fx.done() {
                    let ghost start = self.fx.model();
                    let nothing = Duration::zero();
                    let _ = self.fx.process(nothing, buf, area);
                    proof {
                        Duration::lemma_from_millis_spec(0);
                        let leg = Leg { start, time: nothing, end: self.fx.model() };
                        lemma_course_grows(was, legs, chain, leg, *buf, duration, area, bound);
                        legs = legs.push(leg);
                        chain = chain.push(*buf);
                        assert(is_course(was, legs, self.fx.model(), chain, *old(buf), *buf));
                    }
                    return ;
                }
            }
            let ghost start = self.fx.model();
            let ghost had = self.fx.model().remaining();
            proof {
                if timed {
                    lemma_done_iff_nothing_left(self.fx.model());
                }
            }
            let reported = self.fx.process(left, buf, area);
            proof {
                let leg = Leg { start, time: left, end: self.fx.model() };
                lemma_course_grows(was, legs, chain, leg, *buf, duration, area, bound);
                legs = legs.push(leg);
                chain = chain.push(*buf);
                assert(is_course(was, legs, self.fx.model(), chain, *old(buf), *buf));
            }
            match reported {
                None => {
                    proof {
                        if timed {
                            if let (Some(r), Some(d), Some(now)) = (first, length, had) {
                                assert(left_in_cycle(now, d, left.millis()) == (now
                                    - left.millis()) as nat);
                            }
                        }
                    }
                    return ;
                },
                Some(rest) => {
                    proof {
                        if timed {
                            if let (Some(r), Some(d), Some(now)) = (first, length, had) {
                                assert(rest.millis() == left.millis() - now);
                                assert(left_in_cycle(now, d, left.millis()) == if left.millis()
                                    == now {
                                    0
                                } else {
                                    left_in_cycle(0, d, (left.millis() - now) as nat)
                                });
                            }
                        }
                    }
                    if rest.is_zero() || rest.as_millis() >= left.as_millis() {
                        return ;
                    }
                    left = rest;
                },
            }
        }
    }

    /// Runs the effect for the runs that are left, as far as `duration` goes.
    #[verifier::rlimit(100)]
    fn run(&mut self, duration: Duration, buf: &mut Buffer, area: Rect) -> (overflow: Option<
        Duration,
    >)
        requires
            old(self).mode is Times,
        ensures
            step_holds(
                old(self).model(),
                duration,
                final(self).model(),
                overflow,
                *old(buf),
                *final(buf),
            ),
            repeat_step(old(self).model(), duration, final(self).model()),
            exists|legs: Seq<Leg>, chain: Seq<Buffer>|
                #[trigger] is_course(
                    old(self).fx.model(),
                    legs,
                    final(self).fx.model(),
                    chain,
                    *old(buf),
                    *final(buf),
                ) && legs_stepped(legs, chain, duration, area, old(self).fx.model().depth() + 1),
        decreases old(self).model().depth(), 0int, 0int,
    {
        let ghost timed = old(self).model().timed();
        let ghost length = old(self).fx.model().duration();
        let ghost had = old(self).model().remaining();
        let ghost was = old(self).fx.model();
        let ghost bound = old(self).fx.model().depth() + 1;
        let ghost mut legs: Seq<Leg> = Seq::empty();
        let ghost mut chain: Seq<Buffer> = seq![*buf];
        proof {
            assert(links(was, legs) && legs_stepped(legs, chain, duration, area, bound)) by {
                reveal(links);
                reveal(legs_stepped);
            }
        }
        proof {
            if timed {
                lemma_done_iff_nothing_left(old(self).fx.model());
                lemma_done_iff_nothing_left(old(self).model());
            }
        }
        if self.done() {
            let nothing = Duration::zero();
            let _ = self.fx.process(nothing, buf, area);
            proof {
                Duration::lemma_from_millis_spec(0);
                if timed {
                    lemma_done_iff_nothing_left(self.fx.model());
                    lemma_done_iff_nothing_left(self.model());
                }
                let leg = Leg { start: was, time: nothing, end: self.fx.model() };
                lemma_course_grows(was, legs, chain, leg, *buf, duration, area, bound);
                legs = legs.push(leg);
                chain = chain.push(*buf);
                assert(is_course(was, legs, self.fx.model(), chain, *old(buf), *buf));
            }
            return None;
        }
        if self.fx.done() {
            // the run in hand was over before this step
            proof {
                lemma_times_step((self.runs - 1) as nat, length);
            }
            self.runs = self.runs - 1;
            self.fx.reset();
        }
        let mut left = duration;
        loop
            invariant
                was == old(self).fx.model(),
                bound == old(self).fx.model().depth() + 1,
                chain.len() == legs.len() + 1,
                chain[0] == *old(buf),
                chain.last() == *buf,
                links(was, legs),
                legs_stepped(legs, chain, duration, area, bound),
                if legs.len() == 0 {
                    self.fx.model() == was || (was.is_done() && rewinds(was, self.fx.model()))
                } else {
                    legs.last().end.is_done() && rewinds(legs.last().end, self.fx.model())
                },
                same_frame(*old(buf), *buf),
                self.mode == old(self).mode,
                old(self).mode is Times,
                self.timer == old(self).timer,
                self.runs >= 1,
                self.runs <= old(self).runs,
                !self.fx.model().is_done(),
                !old(self).model().is_done(),
                left.millis() <= duration.millis(),
                timed == old(self).model().timed(),
                length == old(self).fx.model().duration(),
                had == old(self).model().remaining(),
                self.fx.model().depth() == old(self).fx.model().depth(),
                self.fx.model().timed() == old(self).fx.model().timed(),
                self.fx.model().duration() == length,
                timed ==> had == plus(
                    Some((duration.millis() - left.millis()) as nat),
                    self.model().remaining(),
                ),
            decreases self.runs,
        {
            proof {
                if timed {
                    lemma_done_iff_nothing_left(self.fx.model());
                }
            }
            let ghost start = self.fx.model();
            let reported = self.fx.process(left, buf, area);
            proof {
                let leg = Leg { start, time: left, end: self.fx.model() };
                lemma_course_grows(was, legs, chain, leg, *buf, duration, area, bound);
                legs = legs.push(leg);
                chain = chain.push(*buf);
                assert(is_course(was, legs, self.fx.model(), chain, *old(buf), *buf));
            }
            match reported {
                None => {
                    return None;
                },
                Some(rest) => {
                    proof {
                        if timed {
                            lemma_done_iff_nothing_left(self.fx.model());
                        }
                    }
                    if self.runs == 1 {
                        self.runs = 0;
                        return Some(rest);
                    }
                    proof {
                        lemma_times_step((self.runs - 1) as nat, length);
                        lemma_times_nothing((self.runs - 1) as nat, length);
                        lemma_times_nothing((self.runs - 2) as nat, length);
                    }
                    self.runs = self.runs - 1;
                    self.fx.reset();
                    proof {
                        if timed {
                            lemma_done_iff_nothing_left(self.fx.model());
                        }
                        assert(is_course(was, legs, self.fx.model(), chain, *old(buf), *buf));
                    }
                    if self.fx.done() {
                        // a run takes no time: the runs that are left are over at once
                        self.runs = 0;
                        return Some(rest);
                    }
                    if rest.is_zero() {
                        return None;
                    }
                    left = rest;
                },
            }
        }
    }

    /// Advances the repetition by `duration`.
    ///
    /// Returns the time left over on the step that completes the last run, or that uses
    /// up the time of the repetition. A repetition without end hands nothing back.
    pub fn process(&mut self, duration: Duration, buf: &mut Buffer, area: Rect) -> (overflow:
        Option<Duration>)
        ensures
            paints_cells(final(self).model(), area, *old(buf), *final(buf)),
            stepped(
                old(self).model(),
                duration,
                final(self).model(),
                area,
                *old(buf),
                *final(buf),
            ),
            step_holds(
                old(self).model(),
                duration,
                final(self).model(),
                overflow,
                *old(buf),
                *final(buf),
            ),
            repeat_step(old(self).model(), duration, final(self).model()),
        decreases old(self).model().depth(), 0int, 1int,
    {
        proof {
            reveal(stepped);
        }
        match self.mode {
            RepeatMode::Forever => {
                self.cycle(duration, buf, area);
                proof {
                    reveal(legs_stepped);
                }
                None
            },
            RepeatMode::Times(_) => {
                let overflow = self.run(duration, buf, area);
                proof {
                    reveal(legs_stepped);
                }
                overflow
            },
            RepeatMode::Duration(_) => {
                proof {
                    self.timer.lemma_advance_any(duration);
                }
                if self.timer.done() {
                    let ghost was = self.fx.model();
                    let nothing = Duration::zero();
                    let _ = self.fx.process(nothing, buf, area);
                    proof {
                        Duration::lemma_from_millis_spec(0);
                        let leg = Leg { start: was, time: nothing, end: self.fx.model() };
                        let legs = seq![leg];
                        let chain = seq![*old(buf), *buf];
                        reveal(links);
                        reveal(legs_stepped);
                        assert(is_course(was, legs, self.fx.model(), chain, *old(buf), *buf));
                    }
                    return None;
                }
                let overflow = self.timer.process(duration);
                let used = match overflow {
                    Some(rest) => Duration::from_millis(duration.as_millis() - rest.as_millis()),
                    None => duration,
                };
                self.cycle(used, buf, area);
                proof {
                    reveal(legs_stepped);
                }
                overflow
            },
        }
    }

    /// Whether the repetition is over.
    pub fn done(&self) -> (r: bool)
        ensures
            r == self.model().is_done(),
        decreases self,
    {
        match self.mode {
            RepeatMode::Forever => false,
            RepeatMode::Times(_) => self.runs == 0 || (self.fx.done() && (self.runs == 1
                || self.fx.is_instant())),
            RepeatMode::Duration(_) => self.timer.done(),
        }
    }

    /// Whether the repetition takes no time.
    pub fn is_instant(&self) -> (r: bool)
        ensures
            r == self.model().instant(),
        decreases self,
    {
        match self.mode {
            RepeatMode::Forever => false,
            RepeatMode::Times(n) => {
                proof {
                    lemma_times_nothing(n as nat, self.fx.model().duration());
                }
                n == 0 || self.fx.is_instant()
            },
            RepeatMode::Duration(_) => self.timer.duration().is_zero(),
        }
    }

    /// Puts the repetition back to the start of its first run.
    pub fn reset(&mut self)
        ensures
            rewinds(old(self).model(), final(self).model()),
        decreases old(self).model().depth(), 0int,
    {
        proof {
            reveal(reset_to);
        }
        proof {
            self.timer.lemma_parts(
                Duration::from_millis_spec(0),
                self.timer.curve_kind(),
                Duration::from_millis_spec(0),
            );
        }
        self.timer.reset();
        self.fx.reset();
        if let RepeatMode::Times(n) = self.mode {
            self.runs = n;
            proof {
                if n > 0 {
                    lemma_times_step(n as nat, self.fx.model().duration());
                }
                lemma_times_nothing(n as nat, self.fx.model().duration());
            }
        }
    }

    /// Turns the effect round.
    pub fn reverse(&mut self)
        ensures
            final(self).model() == old(self).model().reversed(),
            same_timing(old(self).model(), final(self).model()),
            final(self).model().area() == old(self).model().area(),
            final(self).model().filter() == old(self).model().filter(),
        decreases *old(self),
    {
        self.fx.reverse()
    }

    /// The area of the effect.
    pub fn area(&self) -> (area: Option<Rect>)
        ensures
            area == self.model().area(),
        decreases self,
    {
        self.fx.area()
    }

    /// Makes the effect work in `area`.
    pub fn set_area(&mut self, area: Rect)
        ensures
            final(self).model() == old(self).model().with_area(area),
            same_timing(old(self).model(), final(self).model()),
        decreases *old(self),
    {
        self.fx.set_area(area)
    }

    /// The filter of the effect.
    pub fn cell_selection(&self) -> (filter: Option<CellFilter>)
        ensures
            filter is Some == self.model().filter() is Some,
            filter matches Some(f) ==> Some(f@) == self.model().filter(),
        decreases self,
    {
        self.fx.cell_selection()
    }

    /// Makes the effect touch the cells that `filter` selects.
    pub fn set_cell_selection(&mut self, filter: CellFilter)
        ensures
            final(self).model() == old(self).model().with_filter(filter@),
            same_timing(old(self).model(), final(self).model()),
        decreases *old(self),
    {
        self.fx.set_cell_selection(filter)
    }

    /// A copy of the shader.
    pub fn duplicate(&self) -> (copy: Repeat)
        ensures
            copy.model() == self.model(),
        decreases self,
    {
        Repeat { fx: self.fx.duplicate(), mode: self.mode, runs: self.runs, timer: self.timer }
    }
}

impl Repeat {
    /// The shader does not paint by alpha.
    pub proof fn lemma_paints_by_code(self)
        ensures
            !self.model().paints_by_alpha(),
    {
    }

    /// The shader keeps no timer that its user may change.
    pub proof fn lemma_keeps_no_timer(self)
        ensures
            self.model().own_timer() is None,
    {
    }

    /// The time that the shader takes from its start to its end; `None` where it has no
    /// end.
    pub fn total_duration(&self) -> (d: Option<Duration>)
        ensures
            millis_of(d) == capped(self.model().duration()),
            self.model().timer() == lasting(capped(self.model().duration())),
        decreases self,
    {
        match self.mode {
            RepeatMode::Forever => None,
            RepeatMode::Times(n) => times_capped(n, self.fx.total_duration()),
            RepeatMode::Duration(_) => {
                let d = self.timer.duration();
                proof {
                    d.lemma_millis_bounded();
                }
                Some(d)
            },
        }
    }

    /// The course of the shader and of the effect that it runs, the shader starting at
    /// `offset`.
    pub fn as_effect_span(&self, offset: Duration) -> (span: EffectSpan)
        ensures
            span.model() == self.model().span(offset.millis()),
        decreases self,
    {
        let child = self.fx.as_effect_span(offset);
        EffectSpan::wrapping(self.name(), offset, self.total_duration(), child)
    }
}

} // verus!
