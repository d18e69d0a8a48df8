//! The clock of an effect: how far it has run, how far it has to go, and the alpha
//! that its curve gives for that.

use vstd::prelude::*;
use vstd::std_specs::convert::FromSpecImpl;
use crate::duration::Duration;
use crate::interpolation::{Interpolation, ALPHA_ONE};

verus! {

/// Tracks elapsed time against a total duration and maps it to alpha.
///
/// A timer is well formed when the elapsed time does not exceed the total; time past
/// the total is handed back by [`EffectTimer::process`] and never stored.
#[derive(Clone, Copy, Debug, PartialEq, Eq, Structural)]
pub struct EffectTimer {
    elapsed: Duration,
    total: Duration,
    interpolation: Interpolation,
    reverse: bool,
}

/// The sum of a sequence of time steps, in milliseconds.
pub open spec fn total_millis(steps: Seq<Duration>) -> nat
    decreases steps.len(),
{
    if steps.len() == 0 {
        0
    } else {
        total_millis(steps.drop_last()) + steps.last().millis()
    }
}

impl EffectTimer {
    /// The milliseconds that have elapsed.
    pub closed spec fn elapsed(self) -> nat {
        self.elapsed.millis()
    }

    /// The milliseconds of the whole run.
    pub closed spec fn total(self) -> nat {
        self.total.millis()
    }

    /// The curve that shapes alpha.
    pub closed spec fn curve_kind(self) -> Interpolation {
        self.interpolation
    }

    /// Whether alpha runs from one down to zero.
    pub closed spec fn runs_backwards(self) -> bool {
        self.reverse
    }

    /// The elapsed time does not exceed the total.
    pub open spec fn wf(self) -> bool {
        self.elapsed() <= self.total()
    }

    /// The milliseconds still to go.
    pub open spec fn time_left(self) -> nat {
        if self.elapsed() <= self.total() {
            (self.total() - self.elapsed()) as nat
        } else {
            0
        }
    }

    /// The timer has run its whole duration.
    pub open spec fn is_done(self) -> bool {
        self.elapsed() >= self.total()
    }

    /// Elapsed time as a fraction of the total, rounded down; a timer without duration
    /// is at its end.
    pub open spec fn progress(self) -> int {
        if self.total() == 0 || self.elapsed() >= self.total() {
            ALPHA_ONE as int
        } else {
            self.elapsed() * ALPHA_ONE / (self.total() as int)
        }
    }

    /// The alpha at the current progress: the curve's value, or its complement when the
    /// timer runs backwards.
    pub open spec fn alpha_value(self) -> int {
        let a = self.curve_kind().curve(self.progress());
        if self.runs_backwards() {
            ALPHA_ONE - a
        } else {
            a
        }
    }

    /// The timer after `delta` more milliseconds.
    pub closed spec fn advanced(self, delta: Duration) -> EffectTimer {
        if self.elapsed() >= self.total() {
            self
        } else if self.elapsed() + delta.millis() >= self.total() {
            EffectTimer { elapsed: self.total, ..self }
        } else {
            EffectTimer {
                elapsed: Duration::from_millis_spec((self.elapsed() + delta.millis()) as u32),
                ..self
            }
        }
    }

    /// The time that `delta` more milliseconds leave over, if they complete a running
    /// timer.
    pub open spec fn overflow(self, delta: Duration) -> Option<nat> {
        if self.elapsed() < self.total() && self.elapsed() + delta.millis() >= self.total() {
            Some((self.elapsed() + delta.millis() - self.total()) as nat)
        } else {
            None
        }
    }

    /// The timer after the time steps of `steps`, one after the other.
    pub open spec fn run(self, steps: Seq<Duration>) -> EffectTimer
        decreases steps.len(),
    {
        if steps.len() == 0 {
            self
        } else {
            self.run(steps.drop_last()).advanced(steps.last())
        }
    }

    /// The timer with the same times and curve, running the other way.
    pub closed spec fn flipped(self) -> EffectTimer {
        EffectTimer { reverse: !self.reverse, ..self }
    }

    /// The timer with the same duration, curve and direction, at its start.
    pub closed spec fn rewound(self) -> EffectTimer {
        EffectTimer { elapsed: Duration::from_millis_spec(0), ..self }
    }

    /// The timer of `duration` with the curve `interpolation`, at its start, running
    /// forwards.
    pub closed spec fn fresh(duration: Duration, interpolation: Interpolation) -> EffectTimer {
        EffectTimer {
            elapsed: Duration::from_millis_spec(0),
            total: duration,
            interpolation,
            reverse: false,
        }
    }

    /// A timer of `duration` milliseconds.
    pub fn from_ms(duration: u32, interpolation: Interpolation) -> (t: EffectTimer)
        ensures
            t == EffectTimer::fresh(Duration::from_millis_spec(duration), interpolation),
    {
        EffectTimer::new(Duration::from_millis(duration), interpolation)
    }

    /// A timer of `duration`.
    pub fn new(duration: Duration, interpolation: Interpolation) -> (t: EffectTimer)
        ensures
            t == EffectTimer::fresh(duration, interpolation),
    {
        EffectTimer { elapsed: Duration::zero(), total: duration, interpolation, reverse: false }
    }

    /// The same timer running the other way: alpha becomes its complement.
    pub fn reversed(self) -> (t: EffectTimer)
        ensures
            t == self.flipped(),
    {
        EffectTimer { reverse: !self.reverse, ..self }
    }

    /// Whether the timer runs backwards.
    pub fn is_reversed(&self) -> (r: bool)
        ensures
            r == self.runs_backwards(),
    {
        self.reverse
    }

    /// Whether any time has elapsed.
    pub fn started(&self) -> (r: bool)
        ensures
            r == (self.elapsed() > 0),
    {
        !self.elapsed.is_zero()
    }

    /// Puts the timer back to its start.
    pub fn reset(&mut self)
        ensures
            *final(self) == old(self).rewound(),
    {
        self.elapsed = Duration::zero();
    }

    /// The total duration.
    pub fn duration(&self) -> (d: Duration)
        ensures
            d.millis() == self.total(),
    {
        self.total
    }

    /// The time still to go.
    pub fn remaining(&self) -> (d: Duration)
        ensures
            d.millis() == self.time_left(),
    {
        if self.elapsed.as_millis() <= self.total.as_millis() {
            Duration::from_millis(self.total.as_millis() - self.elapsed.as_millis())
        } else {
            Duration::zero()
        }
    }

    /// The curve that shapes alpha.
    pub fn interpolation(&self) -> (i: Interpolation)
        ensures
            i == self.curve_kind(),
    {
        self.interpolation
    }

    /// The alpha at the current progress, a fraction of [`ALPHA_ONE`].
    pub fn alpha(&self) -> (a: u32)
        ensures
            a == self.alpha_value(),
            a <= ALPHA_ONE,
    {
        let total: u32 = self.total.as_millis();
        let elapsed: u32 = self.elapsed.as_millis();
        let progress: u32 = if total == 0 || elapsed >= total {
            ALPHA_ONE
        } else {
            proof {
                assert(elapsed * 65536 / (total as int) <= 65536) by (nonlinear_arith)
                    requires
                        0 <= elapsed < total,
                ;
                assert(0 <= elapsed * 65536 <= 0xffff_ffff * 65536) by (nonlinear_arith)
                    requires
                        0 <= elapsed <= 0xffff_ffff,
                ;
            }
            (((elapsed as u64) * (ALPHA_ONE as u64)) / (total as u64)) as u32
        };
        let a: u32 = self.interpolation.alpha(progress);
        if self.reverse {
            ALPHA_ONE - a
        } else {
            a
        }
    }

    /// Advances the timer by `delta`.
    ///
    /// Returns the time left over on the call that completes the timer, and `None` on
    /// every other call: while the timer still runs, and once it is done.
    pub fn process(&mut self, delta: Duration) -> (r: Option<Duration>)
        ensures
            *final(self) == old(self).advanced(delta),
            r is Some == old(self).overflow(delta) is Some,
            r matches Some(d) ==> Some(d.millis()) == old(self).overflow(delta),
    {
        let total: u32 = self.total.as_millis();
        let elapsed: u32 = self.elapsed.as_millis();
        if elapsed >= total {
            None
        } else {
            let room: u32 = total - elapsed;
            if delta.as_millis() >= room {
                self.elapsed = self.total;
                Some(Duration::from_millis(delta.as_millis() - room))
            } else {
                self.elapsed = Duration::from_millis(elapsed + delta.as_millis());
                None
            }
        }
    }

    /// Whether the timer has run its whole duration.
    pub fn done(&self) -> (r: bool)
        ensures
            r == self.is_done(),
    {
        self.elapsed.as_millis() >= self.total.as_millis()
    }

    /// What the constructors and the other methods do to the parts of a timer.
    pub proof fn lemma_parts(self, duration: Duration, interpolation: Interpolation, delta: Duration)
        ensures
            EffectTimer::fresh(duration, interpolation).elapsed() == 0,
            EffectTimer::fresh(duration, interpolation).total() == duration.millis(),
            EffectTimer::fresh(duration, interpolation).curve_kind() == interpolation,
            !EffectTimer::fresh(duration, interpolation).runs_backwards(),
            self.flipped().elapsed() == self.elapsed(),
            self.flipped().total() == self.total(),
            self.flipped().curve_kind() == self.curve_kind(),
            self.flipped().runs_backwards() == !self.runs_backwards(),
            self.rewound().elapsed() == 0,
            self.rewound().total() == self.total(),
            self.rewound().curve_kind() == self.curve_kind(),
            self.rewound().runs_backwards() == self.runs_backwards(),
            self.advanced(delta).total() == self.total(),
            self.advanced(delta).curve_kind() == self.curve_kind(),
            self.advanced(delta).runs_backwards() == self.runs_backwards(),
            self.advanced(delta).elapsed() == if self.elapsed() >= self.total() {
                self.elapsed()
            } else if self.elapsed() + delta.millis() >= self.total() {
                self.total()
            } else {
                self.elapsed() + delta.millis()
            },
    {
        Duration::lemma_from_millis_spec(0);
        if self.elapsed() + delta.millis() < self.total() {
            self.total.lemma_millis_bounded();
            Duration::lemma_from_millis_spec((self.elapsed() + delta.millis()) as u32);
        }
    }

    /// Advancing keeps a timer well formed, and obeys the law of time: what is left
    /// shrinks by the step, and the step's surplus is handed back exactly when the step
    /// completes the timer.
    pub proof fn lemma_advance(self, delta: Duration)
        requires
            self.wf(),
        ensures
            self.advanced(delta).wf(),
            self.time_left() > delta.millis() ==> self.advanced(delta).time_left()
                == self.time_left() - delta.millis() && self.overflow(delta) is None,
            0 < self.time_left() <= delta.millis() ==> self.advanced(delta).time_left() == 0
                && self.overflow(delta) == Some((delta.millis() - self.time_left()) as nat),
            self.time_left() == 0 ==> self.advanced(delta) == self && self.overflow(delta) is None,
    {
        self.lemma_parts(self.total, self.interpolation, delta);
    }

    /// Advancing any timer obeys the law of time: a finished timer stays as it is and
    /// hands nothing back; a running one has `delta` less left, or nothing, and hands
    /// back the surplus of the step that completes it.
    pub proof fn lemma_advance_any(self, delta: Duration)
        ensures
            self.advanced(delta).total() == self.total(),
            self.time_left() == 0 ==> self.advanced(delta).time_left() == 0 && self.overflow(delta)
                is None,
            self.time_left() > delta.millis() ==> self.advanced(delta).time_left()
                == self.time_left() - delta.millis() && self.overflow(delta) is None,
            0 < self.time_left() <= delta.millis() ==> self.advanced(delta).time_left() == 0
                && self.overflow(delta) == Some((delta.millis() - self.time_left()) as nat),
            self.is_done() <==> self.time_left() == 0,
            self.is_done() ==> self.advanced(delta) == self,
    {
        self.lemma_parts(self.total, self.interpolation, delta);
    }

    /// Reversing twice gives the timer back, so its alpha is that of the timer itself after any
    /// run of time steps.
    pub proof fn lemma_reverse_involution(self, steps: Seq<Duration>)
        ensures
            self.flipped().flipped() == self,
            self.flipped().flipped().run(steps).alpha_value() == self.run(steps).alpha_value(),
    {
    }

    /// Reversing commutes with the passing of time and turns alpha into its complement.
    pub proof fn lemma_reverse_complement(self, steps: Seq<Duration>)
        ensures
            self.flipped().run(steps) == self.run(steps).flipped(),
            self.flipped().alpha_value() == ALPHA_ONE - self.alpha_value(),
            self.flipped().run(steps).alpha_value() == ALPHA_ONE - self.run(steps).alpha_value(),
        decreases steps.len(),
    {
        self.lemma_parts(self.total, self.interpolation, Duration::from_millis_spec(0));
        if steps.len() > 0 {
            self.lemma_reverse_complement(steps.drop_last());
            let before = self.run(steps.drop_last());
            before.lemma_parts(self.total, self.interpolation, steps.last());
            before.flipped().lemma_parts(self.total, self.interpolation, steps.last());
        }
        let after = self.run(steps);
        after.lemma_parts(self.total, self.interpolation, Duration::from_millis_spec(0));
    }

    /// A finished timer shows the last alpha of its direction: one when it runs forwards,
    /// zero when it runs backwards. A timer at its start shows the other one, unless it
    /// has no duration.
    pub proof fn lemma_alpha_at_ends(self)
        ensures
            self.is_done() ==> self.alpha_value() == if self.runs_backwards() {
                0
            } else {
                ALPHA_ONE as int
            },
            self.elapsed() == 0 && self.total() > 0 ==> self.alpha_value() == if self.runs_backwards() {
                ALPHA_ONE as int
            } else {
                0
            },
            0 <= self.alpha_value() <= ALPHA_ONE,
    {
        let p = self.progress();
        let e = self.elapsed() as int;
        let t = self.total() as int;
        if !(t == 0 || e >= t) {
            assert(0 <= e * 65536 / t <= 65536 && (e == 0 ==> e * 65536 / t == 0)) by (nonlinear_arith)
                requires
                    0 <= e < t,
            ;
        }
        self.curve_kind().lemma_curve_range(p);
    }

    /// Where a timer with a duration turns round at its end, alpha stays where it is: the
    /// alpha that the way forwards ends with is the alpha that the way back starts with.
    pub proof fn lemma_turning_point(self)
        requires
            self.total() > 0,
            self.is_done(),
        ensures
            self.flipped().rewound().alpha_value() == self.alpha_value(),
    {
        self.lemma_parts(self.total, self.interpolation, Duration::from_millis_spec(0));
        self.flipped().lemma_parts(self.total, self.interpolation, Duration::from_millis_spec(0));
        self.lemma_alpha_at_ends();
        self.flipped().rewound().lemma_parts(
            self.total,
            self.interpolation,
            Duration::from_millis_spec(0),
        );
        self.flipped().rewound().lemma_alpha_at_ends();
    }

    /// With a linear curve alpha is the elapsed share of the total, rounded down; half
    /// of an even total is exactly one half.
    pub proof fn lemma_linear_alpha(self)
        requires
            self.curve_kind() == Interpolation::Linear,
            !self.runs_backwards(),
            self.elapsed() < self.total(),
        ensures
            self.alpha_value() == self.elapsed() * ALPHA_ONE / (self.total() as int),
            2 * self.elapsed() == self.total() ==> self.alpha_value() == ALPHA_ONE / 2,
    {
        let e = self.elapsed() as int;
        let t = self.total() as int;
        assert(0 <= e * 65536 / t <= 65536) by (nonlinear_arith)
            requires
                0 <= e < t,
        ;
        Interpolation::lemma_linear_is_identity(self.progress());
        if 2 * e == t {
            assert(e * 65536 / t == 32768) by (nonlinear_arith)
                requires
                    2 * e == t,
                    e > 0,
            ;
        }
    }

    /// After a run of time steps a fresh timer has elapsed their sum, capped at its
    /// total.
    pub proof fn lemma_run_elapsed(self, steps: Seq<Duration>)
        requires
            self.elapsed() == 0,
        ensures
            self.run(steps).total() == self.total(),
            self.run(steps).curve_kind() == self.curve_kind(),
            self.run(steps).runs_backwards() == self.runs_backwards(),
            self.run(steps).elapsed() == if total_millis(steps) >= self.total() {
                self.total()
            } else {
                total_millis(steps)
            },
        decreases steps.len(),
    {
        if steps.len() > 0 {
            self.lemma_run_elapsed(steps.drop_last());
            self.run(steps.drop_last()).lemma_parts(self.total, self.interpolation, steps.last());
        }
    }

    /// Overflow is reported exactly on the step that crosses completion, and equals the
    /// time delivered so far less the total.
    ///
    /// `steps` are the time steps delivered to a fresh timer; the claim is about the
    /// report of step `k`.
    pub proof fn lemma_overflow_reported_once(self, steps: Seq<Duration>, k: int)
        requires
            self.elapsed() == 0,
            0 <= k < steps.len(),
        ensures
            self.run(steps.take(k)).overflow(steps[k]) == if total_millis(steps.take(k))
                < self.total() && total_millis(steps.take(k + 1)) >= self.total() {
                Some((total_millis(steps.take(k + 1)) - self.total()) as nat)
            } else {
                None
            },
    {
        self.lemma_run_elapsed(steps.take(k));
        assert(steps.take(k + 1).drop_last() == steps.take(k));
        assert(steps.take(k + 1).last() == steps[k]);
    }

    /// Once the time delivered to a fresh timer reaches its total, the timer is done
    /// and its alpha is one, or zero when it runs backwards.
    pub proof fn lemma_done_after_total(self, steps: Seq<Duration>)
        requires
            self.elapsed() == 0,
            total_millis(steps) >= self.total(),
        ensures
            self.run(steps).is_done(),
            self.run(steps).alpha_value() == if self.runs_backwards() {
                0
            } else {
                ALPHA_ONE as int
            },
    {
        self.lemma_run_elapsed(steps);
        self.run(steps).lemma_alpha_at_ends();
    }
}

impl Default for EffectTimer {
    /// A timer without duration: done from the start.
    fn default() -> (t: EffectTimer)
        ensures
            t == EffectTimer::fresh(Duration::from_millis_spec(0), Interpolation::Linear),
    {
        EffectTimer::new(Duration::zero(), Interpolation::Linear)
    }
}

impl From<u32> for EffectTimer {
    /// A linear timer of that many milliseconds.
    fn from(ms: u32) -> (t: EffectTimer) {
        EffectTimer::from_ms(ms, Interpolation::Linear)
    }
}

impl FromSpecImpl<u32> for EffectTimer {
    open spec fn obeys_from_spec() -> bool {
        true
    }

    open spec fn from_spec(ms: u32) -> EffectTimer {
        EffectTimer::fresh(Duration::from_millis_spec(ms), Interpolation::Linear)
    }
}

impl From<(u32, Interpolation)> for EffectTimer {
    /// A timer of that many milliseconds with that curve.
    fn from(v: (u32, Interpolation)) -> (t: EffectTimer) {
        EffectTimer::from_ms(v.0, v.1)
    }
}

impl FromSpecImpl<(u32, Interpolation)> for EffectTimer {
    open spec fn obeys_from_spec() -> bool {
        true
    }

    open spec fn from_spec(v: (u32, Interpolation)) -> EffectTimer {
        EffectTimer::fresh(Duration::from_millis_spec(v.0), v.1)
    }
}

impl From<Duration> for EffectTimer {
    /// A linear timer of that duration.
    fn from(duration: Duration) -> (t: EffectTimer) {
        EffectTimer::new(duration, Interpolation::Linear)
    }
}

impl FromSpecImpl<Duration> for EffectTimer {
    open spec fn obeys_from_spec() -> bool {
        true
    }

    open spec fn from_spec(duration: Duration) -> EffectTimer {
        EffectTimer::fresh(duration, Interpolation::Linear)
    }
}

impl From<(Duration, Interpolation)> for EffectTimer {
    /// A timer of that duration with that curve.
    fn from(v: (Duration, Interpolation)) -> (t: EffectTimer) {
        EffectTimer::new(v.0, v.1)
    }
}

impl FromSpecImpl<(Duration, Interpolation)> for EffectTimer {
    open spec fn obeys_from_spec() -> bool {
        true
    }

    open spec fn from_spec(v: (Duration, Interpolation)) -> EffectTimer {
        EffectTimer::fresh(v.0, v.1)
    }
}

} // verus!
