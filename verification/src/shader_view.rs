//! Shaders as mathematical values, and the law of time that they obey.
//!
//! A [`ShaderView`] is the state of a shader tree, with sequences for lists. What a
//! shader has left to run, how long it runs from its start and whether it is done are
//! functions of that state.
//!
//! A shader is *timed* when its progress depends on nothing but the time it is given.
//! A timed shader obeys [`process_law`]: a step of time shortens what it has left by
//! that much, and the step that completes it hands back what it did not need.

use vstd::prelude::*;
use ratatui::layout::{Offset, Rect, Size};
use crate::buffer::SharedBuffer;
use ratatui::style::Color;
use crate::cell::Style;
use crate::cell_filter::FilterView;
use crate::duration::Duration;
use crate::effect_timer::EffectTimer;
use crate::interpolation::Interpolation;
use crate::fx::direction::Motion;
use crate::fx::shader_fn::ShaderFnSignature;
use crate::simple_rng::SimpleRng;

verus! {

/// How often a repeated effect runs.
#[derive(Clone, Copy, Debug, PartialEq, Eq, Structural)]
pub enum RepeatMode {
    /// Again and again, without end.
    Forever,
    /// That many times.
    Times(u32),
    /// For that long, cut off wherever the last run then is.
    Duration(Duration),
}

/// Where a prolonged effect is held.
#[derive(Clone, Copy, Debug, PartialEq, Eq, Structural)]
pub enum ProlongPosition {
    /// At its start, before it runs.
    Start,
    /// At its end, after it has run.
    End,
}

/// What becomes of an area over time.
pub enum AreaChange {
    /// It moves by that many columns and rows.
    Translate((i16, i16)),
    /// It grows or shrinks from that size to its own.
    Resize(Size),
}

/// What a shader that paints cells does to them.
pub enum Look {
    /// Blanks more and more cells, each with the style if there is one; `rng` gives each
    /// cell its threshold.
    Dissolve { style: Option<Style>, rng: SimpleRng },
    /// Hands the selected cells, or the whole buffer, to code of the caller.
    Custom { code: ShaderFnSignature },
    /// Moves the colors of the cells towards `fg` and `bg`, where there is one.
    Fade { fg: Option<Color>, bg: Option<Color> },
    /// Shows the cells in `color` until an edge that moves in `direction` has passed them.
    Sweep { direction: Motion, gradient: u16, spread: u16, color: Color, rng: SimpleRng },
    /// Covers the cells with `color` as an edge passes them; the content leaves in
    /// `direction`.
    Slide { direction: Motion, gradient: u16, spread: u16, color: Color, rng: SimpleRng },
    /// Copies the buffer `source` onto the cells, moved by the share of `by` that alpha
    /// says.
    TranslateBuffer { by: Offset, source: SharedBuffer },
}

/// The state of a shader tree.
pub enum ShaderView {
    /// Paints the cells that `filter` selects, as `look` says, at the alpha of `timer`;
    /// within `area` if there is one, else within the area that it is given.
    Leaf { timer: EffectTimer, area: Option<Rect>, filter: FilterView, look: Look },
    /// Lets time pass.
    Sleep { timer: EffectTimer },
    /// Is done after the first step, whatever its length.
    ConsumeTick { consumed: bool },
    /// Replaces every color by the nearest of the palette of 256, without end.
    Ansi256 { area: Option<Rect> },
    /// Runs its effects one after the other.
    Sequential { effects: Seq<ShaderView> },
    /// Runs its effects side by side.
    Parallel { effects: Seq<ShaderView> },
    /// Runs its effect again and again; `runs` counts the runs still to come, the
    /// current one included, and `timer` the time of a repetition that is bounded by time.
    Repeat { fx: Box<ShaderView>, mode: RepeatMode, runs: u32, timer: EffectTimer },
    /// Runs its effect forwards, then backwards.
    PingPong { fx: Box<ShaderView>, reversing: bool },
    /// Holds its effect for the time of `timer`, before it starts or after it has ended.
    Prolong { position: ProlongPosition, timer: EffectTimer, inner: Box<ShaderView> },
    /// Runs its effect and never reports completion.
    NeverComplete { inner: Box<ShaderView> },
    /// Runs its effect on a buffer of its own.
    Offscreen { inner: Box<ShaderView>, target: SharedBuffer },
    /// Runs its effect for the time of `timer` at most.
    Temporary { inner: Box<ShaderView>, timer: EffectTimer },
    /// Moves or resizes the area of its effect, if it has one, over the time of `timer`.
    Translate {
        wrapped: Option<Box<ShaderView>>,
        area: Option<Rect>,
        anchor: Option<Rect>,
        change: AreaChange,
        timer: EffectTimer,
    },
}

impl Look {
    /// The name of a shader with this look, by the direction of its timer.
    pub open spec fn name(self, backwards: bool) -> Seq<char> {
        match self {
            Look::Dissolve { .. } => if backwards {
                "coalesce"@
            } else {
                "dissolve"@
            },
            Look::Fade { .. } => if backwards {
                "fade_from"@
            } else {
                "fade_to"@
            },
            Look::Sweep { .. } => if backwards {
                "sweep_out"@
            } else {
                "sweep_in"@
            },
            Look::Slide { direction, .. } => if backwards == direction.backwards() {
                "slide_out"@
            } else {
                "slide_in"@
            },
            Look::TranslateBuffer { .. } => "translate_buf"@,
            Look::Custom { code } => match code {
                ShaderFnSignature::Iter(_) => "shader_fn"@,
                ShaderFnSignature::Buffer(_) => "shader_fn_buf"@,
            },
        }
    }
}

/// The sum of two spans of time, either of which may be without end.
pub open spec fn plus(a: Option<nat>, b: Option<nat>) -> Option<nat> {
    match (a, b) {
        (Some(x), Some(y)) => Some(x + y),
        _ => None,
    }
}

/// The longer of two spans of time, either of which may be without end.
pub open spec fn longer(a: Option<nat>, b: Option<nat>) -> Option<nat> {
    match (a, b) {
        (Some(x), Some(y)) => Some(if x >= y { x } else { y }),
        _ => None,
    }
}

/// The shorter of two spans of time, either of which may be without end.
pub open spec fn shorter(a: Option<nat>, b: Option<nat>) -> Option<nat> {
    match (a, b) {
        (Some(x), Some(y)) => Some(if x <= y { x } else { y }),
        (Some(x), None) => Some(x),
        (None, Some(y)) => Some(y),
        (None, None) => None,
    }
}

/// A span of time, that many times over.
pub open spec fn times(n: nat, a: Option<nat>) -> Option<nat> {
    match a {
        Some(x) => Some(n * x),
        None => if n == 0 {
            Some(0nat)
        } else {
            None
        },
    }
}

/// The time that the effects from the `i`-th on have left, together.
pub open spec fn left_from(effects: Seq<ShaderView>, i: int) -> Option<nat>
    decreases effects, effects.len() - i,
{
    if i < 0 || i >= effects.len() {
        Some(0nat)
    } else {
        plus(effects[i].remaining(), left_from(effects, i + 1))
    }
}

/// The longest time that one of the first `i` effects has left.
pub open spec fn longest_upto(effects: Seq<ShaderView>, i: int) -> Option<nat>
    decreases effects, i,
{
    if i <= 0 || i > effects.len() {
        Some(0nat)
    } else {
        longer(longest_upto(effects, i - 1), effects[i - 1].remaining())
    }
}

/// The greatest depth of one of the first `i` effects.
pub open spec fn deepest_upto(effects: Seq<ShaderView>, i: int) -> nat
    decreases effects, i,
{
    if i <= 0 || i > effects.len() {
        0
    } else {
        let rest = deepest_upto(effects, i - 1);
        let d = effects[i - 1].depth();
        if rest >= d {
            rest
        } else {
            d
        }
    }
}

/// The time that the effects from the `i`-th on take from their start, together.
pub open spec fn length_from(effects: Seq<ShaderView>, i: int) -> Option<nat>
    decreases effects, effects.len() - i,
{
    if i < 0 || i >= effects.len() {
        Some(0nat)
    } else {
        plus(effects[i].duration(), length_from(effects, i + 1))
    }
}

/// The longest time that one of the first `i` effects takes from its start.
pub open spec fn longest_length_upto(effects: Seq<ShaderView>, i: int) -> Option<nat>
    decreases effects, i,
{
    if i <= 0 || i > effects.len() {
        Some(0nat)
    } else {
        longer(longest_length_upto(effects, i - 1), effects[i - 1].duration())
    }
}

impl ShaderView {
    /// Whether the shader's progress depends on nothing but the time it is given.
    ///
    /// A shader that is done after one step of any length is not timed, and neither is a
    /// shader that waits for one; a repetition bounded by time is, whatever it repeats. An
    /// effect that is limited in time is not timed: it is done when its effect is or its
    /// limit, and what it hands back is what its limit leaves over, whichever ends first.
    pub open spec fn timed(self) -> bool
        decreases self,
    {
        match self {
            ShaderView::Leaf { .. } => true,
            ShaderView::Sleep { .. } => true,
            ShaderView::ConsumeTick { .. } => false,
            ShaderView::Ansi256 { .. } => true,
            ShaderView::Sequential { effects } => forall|i: int|
                0 <= i < effects.len() ==> (#[trigger] effects[i]).timed(),
            ShaderView::Parallel { effects } => forall|i: int|
                0 <= i < effects.len() ==> (#[trigger] effects[i]).timed(),
            ShaderView::Repeat { fx, mode, .. } => mode is Duration || fx.timed(),
            ShaderView::PingPong { fx, .. } => fx.timed(),
            ShaderView::Prolong { inner, .. } => inner.timed(),
            ShaderView::NeverComplete { .. } => true,
            ShaderView::Offscreen { inner, .. } => inner.timed(),
            ShaderView::Temporary { .. } => false,
            ShaderView::Translate { wrapped, .. } => match wrapped {
                Some(fx) => fx.timed(),
                None => true,
            },
        }
    }

    /// How many shaders deep the tree is below this shader.
    pub open spec fn depth(self) -> nat
        decreases self, 0int,
    {
        match self {
            ShaderView::Leaf { .. } => 0,
            ShaderView::Sleep { .. } => 0,
            ShaderView::ConsumeTick { .. } => 0,
            ShaderView::Ansi256 { .. } => 0,
            ShaderView::Sequential { effects } => 1 + deepest_upto(effects, effects.len() as int),
            ShaderView::Parallel { effects } => 1 + deepest_upto(effects, effects.len() as int),
            ShaderView::Repeat { fx, .. } => 1 + fx.depth(),
            ShaderView::PingPong { fx, .. } => 1 + fx.depth(),
            ShaderView::Prolong { inner, .. } => 1 + inner.depth(),
            ShaderView::NeverComplete { inner } => 1 + inner.depth(),
            ShaderView::Offscreen { inner, .. } => 1 + inner.depth(),
            ShaderView::Temporary { inner, .. } => 1 + inner.depth(),
            ShaderView::Translate { wrapped, .. } => match wrapped {
                Some(fx) => 1 + fx.depth(),
                None => 0,
            },
        }
    }

    /// The time that the shader takes from its start to its end; `None` where it has no
    /// end.
    pub open spec fn duration(self) -> Option<nat>
        decreases self, 0int,
    {
        match self {
            ShaderView::Leaf { timer, .. } => Some(timer.total()),
            ShaderView::Sleep { timer } => Some(timer.total()),
            ShaderView::ConsumeTick { .. } => Some(0nat),
            ShaderView::Ansi256 { .. } => None,
            ShaderView::Sequential { effects } => length_from(effects, 0),
            ShaderView::Parallel { effects } => longest_length_upto(effects, effects.len() as int),
            ShaderView::Repeat { fx, mode, timer, .. } => match mode {
                RepeatMode::Forever => None,
                RepeatMode::Times(n) => times(n as nat, fx.duration()),
                RepeatMode::Duration(_) => Some(timer.total()),
            },
            ShaderView::PingPong { fx, .. } => plus(fx.duration(), fx.duration()),
            ShaderView::Prolong { timer, inner, .. } => plus(Some(timer.total()), inner.duration()),
            ShaderView::NeverComplete { .. } => None,
            ShaderView::Offscreen { inner, .. } => inner.duration(),
            ShaderView::Temporary { inner, timer } => shorter(Some(timer.total()), inner.duration()),
            ShaderView::Translate { wrapped, timer, .. } => match wrapped {
                Some(fx) => longer(Some(timer.total()), fx.duration()),
                None => Some(timer.total()),
            },
        }
    }

    /// The time that the shader still needs; `None` where it will never be done.
    pub open spec fn remaining(self) -> Option<nat>
        decreases self, 0int,
    {
        match self {
            ShaderView::Leaf { timer, .. } => Some(timer.time_left()),
            ShaderView::Sleep { timer } => Some(timer.time_left()),
            ShaderView::ConsumeTick { .. } => Some(0nat),
            ShaderView::Ansi256 { .. } => None,
            ShaderView::Sequential { effects } => left_from(effects, 0),
            ShaderView::Parallel { effects } => longest_upto(effects, effects.len() as int),
            ShaderView::Repeat { fx, mode, runs, timer } => match mode {
                RepeatMode::Forever => None,
                RepeatMode::Times(_) => if runs == 0 {
                    Some(0nat)
                } else {
                    plus(fx.remaining(), times((runs - 1) as nat, fx.duration()))
                },
                RepeatMode::Duration(_) => Some(timer.time_left()),
            },
            ShaderView::PingPong { fx, reversing } => if reversing {
                fx.remaining()
            } else {
                plus(fx.remaining(), fx.duration())
            },
            ShaderView::Prolong { timer, inner, .. } => plus(
                Some(timer.time_left()),
                inner.remaining(),
            ),
            ShaderView::NeverComplete { .. } => None,
            ShaderView::Offscreen { inner, .. } => inner.remaining(),
            ShaderView::Temporary { inner, timer } => shorter(
                Some(timer.time_left()),
                inner.remaining(),
            ),
            ShaderView::Translate { wrapped, timer, .. } => match wrapped {
                Some(fx) => longer(Some(timer.time_left()), fx.remaining()),
                None => Some(timer.time_left()),
            },
        }
    }

    /// Whether the shader takes no time from its start to its end.
    pub open spec fn instant(self) -> bool {
        self.duration() == Some(0nat)
    }

    /// Whether the shader is done.
    pub open spec fn is_done(self) -> bool
        decreases self,
    {
        match self {
            ShaderView::Leaf { timer, .. } => timer.is_done(),
            ShaderView::Sleep { timer } => timer.is_done(),
            ShaderView::ConsumeTick { consumed } => consumed,
            ShaderView::Ansi256 { .. } => false,
            ShaderView::Sequential { effects } => forall|i: int|
                0 <= i < effects.len() ==> (#[trigger] effects[i]).is_done(),
            ShaderView::Parallel { effects } => forall|i: int|
                0 <= i < effects.len() ==> (#[trigger] effects[i]).is_done(),
            ShaderView::Repeat { fx, mode, runs, timer } => match mode {
                RepeatMode::Forever => false,
                RepeatMode::Times(_) => runs == 0 || (fx.is_done() && (runs == 1 || fx.instant())),
                RepeatMode::Duration(_) => timer.is_done(),
            },
            ShaderView::PingPong { fx, reversing } => fx.is_done() && (reversing || fx.instant()),
            ShaderView::Prolong { timer, inner, .. } => timer.is_done() && inner.is_done(),
            ShaderView::NeverComplete { .. } => false,
            ShaderView::Offscreen { inner, .. } => inner.is_done(),
            ShaderView::Temporary { inner, timer } => timer.is_done() || inner.is_done(),
            ShaderView::Translate { wrapped, timer, .. } => match wrapped {
                Some(fx) => timer.is_done() && fx.is_done(),
                None => timer.is_done(),
            },
        }
    }
}

/// The law of time, for one step.
///
/// `before` and `after` are what a shader has left before and after a step of `delta`
/// milliseconds, and `reported` is what the step hands back. A shader without end stays
/// so and hands nothing back. A shader that is done stays done and hands nothing back.
/// A step shorter than what is left shortens it by `delta` and hands nothing back. Any
/// other step completes the shader and hands back the time that it did not need.
pub open spec fn process_law(
    before: Option<nat>,
    delta: nat,
    after: Option<nat>,
    reported: Option<Duration>,
) -> bool {
    match before {
        None => after is None && reported is None,
        Some(t) => if t == 0 {
            after == Some(0nat) && reported is None
        } else if delta < t {
            after == Some((t - delta) as nat) && reported is None
        } else {
            after == Some(0nat) && (reported matches Some(o) && o.millis() == delta - t)
        },
    }
}

/// What the law of time leaves of `before` after a step of `delta` milliseconds.
pub open spec fn left_after_step(before: Option<nat>, delta: nat) -> Option<nat> {
    match before {
        None => None,
        Some(t) => Some(
            if t <= delta {
                0nat
            } else {
                (t - delta) as nat
            },
        ),
    }
}

/// What a shader that obeys the law has left after the steps of `steps`, having had
/// `before` left.
pub open spec fn left_after(before: Option<nat>, steps: Seq<Duration>) -> Option<nat>
    decreases steps.len(),
{
    if steps.len() == 0 {
        before
    } else {
        match left_after(before, steps.drop_last()) {
            None => None,
            Some(t) => Some(
                if t <= steps.last().millis() {
                    0nat
                } else {
                    (t - steps.last().millis()) as nat
                },
            ),
        }
    }
}

/// Under the law of time it does not matter how time is cut into steps: after steps
/// that add up to `total`, a shader that had `t` left has `t - total` left, or nothing.
pub proof fn lemma_left_after(t: nat, steps: Seq<Duration>)
    ensures
        left_after(Some(t), steps) == Some(
            if t <= crate::effect_timer::total_millis(steps) {
                0nat
            } else {
                (t - crate::effect_timer::total_millis(steps)) as nat
            },
        ),
    decreases steps.len(),
{
    if steps.len() > 0 {
        lemma_left_after(t, steps.drop_last());
    }
}

/// Under the law of time a shader reports completion on the step that brings the time
/// delivered to what it had left, and hands back their difference.
///
/// `reported` is what the last step of `steps` handed back to a shader that had `t` left
/// before the first, each step obeying the law.
pub proof fn lemma_completion_reported(t: nat, steps: Seq<Duration>, reported: Option<Duration>)
    requires
        steps.len() > 0,
        process_law(
            left_after(Some(t), steps.drop_last()),
            steps.last().millis(),
            left_after(Some(t), steps),
            reported,
        ),
    ensures
        ({
            let earlier = crate::effect_timer::total_millis(steps.drop_last());
            let total = crate::effect_timer::total_millis(steps);
            if earlier < t && t <= total {
                reported matches Some(o) && o.millis() == total - t
            } else {
                reported is None
            }
        }),
{
    lemma_left_after(t, steps.drop_last());
    lemma_left_after(t, steps);
}

/// What a list of effects has left from the `i`-th on depends on those effects only.
pub proof fn lemma_left_from_frame(a: Seq<ShaderView>, b: Seq<ShaderView>, i: int)
    requires
        a.len() == b.len(),
        forall|j: int| i <= j < a.len() && 0 <= j ==> (#[trigger] a[j]).remaining() == b[j].remaining(),
    ensures
        left_from(a, i) == left_from(b, i),
    decreases a.len() - i,
{
    if 0 <= i < a.len() {
        lemma_left_from_frame(a, b, i + 1);
    }
}

/// Effects that have nothing left add nothing to what a list has left.
pub proof fn lemma_left_from_done_prefix(a: Seq<ShaderView>, k: int, i: int)
    requires
        0 <= k <= i <= a.len(),
        forall|j: int| k <= j < i ==> (#[trigger] a[j]).remaining() == Some(0nat),
    ensures
        left_from(a, k) == left_from(a, i),
    decreases i - k,
{
    if k < i {
        lemma_left_from_done_prefix(a, k + 1, i);
    }
}

/// A list of effects has nothing left from the `i`-th on exactly when none of those
/// effects has.
pub proof fn lemma_left_from_nothing(a: Seq<ShaderView>, i: int)
    requires
        0 <= i <= a.len(),
    ensures
        left_from(a, i) == Some(0nat) <==> (forall|j: int|
            i <= j < a.len() ==> (#[trigger] a[j]).remaining() == Some(0nat)),
    decreases a.len() - i,
{
    if i < a.len() {
        lemma_left_from_nothing(a, i + 1);
        if left_from(a, i) == Some(0nat) {
            assert forall|j: int| i <= j < a.len() implies (#[trigger] a[j]).remaining() == Some(
                0nat,
            ) by {
                if j > i {
                }
            }
        } else if forall|j: int| i <= j < a.len() ==> (#[trigger] a[j]).remaining() == Some(0nat) {
            assert(a[i].remaining() == Some(0nat));
        }
    }
}

/// The longest that one of the first `i` effects has left is nothing exactly when none
/// of those effects has anything left.
pub proof fn lemma_longest_upto_nothing(a: Seq<ShaderView>, i: int)
    requires
        0 <= i <= a.len(),
    ensures
        longest_upto(a, i) == Some(0nat) <==> (forall|j: int|
            0 <= j < i ==> (#[trigger] a[j]).remaining() == Some(0nat)),
    decreases i,
{
    if i > 0 {
        lemma_longest_upto_nothing(a, i - 1);
        if longest_upto(a, i) == Some(0nat) {
            assert forall|j: int| 0 <= j < i implies (#[trigger] a[j]).remaining() == Some(
                0nat,
            ) by {
                if j < i - 1 {
                }
            }
        } else if forall|j: int| 0 <= j < i ==> (#[trigger] a[j]).remaining() == Some(0nat) {
            assert(a[i - 1].remaining() == Some(0nat));
        }
    }
}

/// Where each of the first `i` effects has, after a step, what the law leaves it, the
/// longest that one of them has left is what the law leaves of the longest before.
pub proof fn lemma_longest_after_step(a: Seq<ShaderView>, b: Seq<ShaderView>, delta: nat, i: int)
    requires
        a.len() == b.len(),
        0 <= i <= a.len(),
        forall|j: int|
            0 <= j < i ==> (#[trigger] b[j]).remaining() == left_after_step(a[j].remaining(), delta),
    ensures
        longest_upto(b, i) == left_after_step(longest_upto(a, i), delta),
    decreases i,
{
    if i > 0 {
        lemma_longest_after_step(a, b, delta, i - 1);
        assert(b[i - 1].remaining() == left_after_step(a[i - 1].remaining(), delta));
    }
}

/// The time that a sequence of effects takes depends on the time that each takes only.
pub proof fn lemma_length_from_frame(a: Seq<ShaderView>, b: Seq<ShaderView>, i: int)
    requires
        a.len() == b.len(),
        forall|j: int| 0 <= j < a.len() ==> (#[trigger] a[j]).duration() == b[j].duration(),
    ensures
        length_from(a, i) == length_from(b, i),
    decreases a.len() - i,
{
    if 0 <= i < a.len() {
        lemma_length_from_frame(a, b, i + 1);
    }
}

/// The longest time that one of the first `i` effects takes depends on the time that each
/// takes only.
pub proof fn lemma_longest_length_frame(a: Seq<ShaderView>, b: Seq<ShaderView>, i: int)
    requires
        a.len() == b.len(),
        forall|j: int| 0 <= j < a.len() ==> (#[trigger] a[j]).duration() == b[j].duration(),
    ensures
        longest_length_upto(a, i) == longest_length_upto(b, i),
    decreases i,
{
    if 0 < i <= a.len() {
        lemma_longest_length_frame(a, b, i - 1);
    }
}

/// A timed shader is done exactly when it has nothing left.
pub proof fn lemma_done_iff_nothing_left(v: ShaderView)
    requires
        v.timed(),
    ensures
        v.is_done() <==> v.remaining() == Some(0nat),
    decreases v,
{
    match v {
        ShaderView::Leaf { timer, .. } => {
            timer.lemma_advance_any(Duration::from_millis_spec(0));
        },
        ShaderView::Sleep { timer } => {
            timer.lemma_advance_any(Duration::from_millis_spec(0));
        },
        ShaderView::ConsumeTick { .. } => {},
        ShaderView::Ansi256 { .. } => {},
        ShaderView::Sequential { effects } => {
            assert forall|i: int| 0 <= i < effects.len() implies ((#[trigger] effects[i]).is_done()
                <==> effects[i].remaining() == Some(0nat)) by {
                lemma_done_iff_nothing_left(effects[i]);
            }
            lemma_left_from_nothing(effects, 0);
        },
        ShaderView::Parallel { effects } => {
            assert forall|i: int| 0 <= i < effects.len() implies ((#[trigger] effects[i]).is_done()
                <==> effects[i].remaining() == Some(0nat)) by {
                lemma_done_iff_nothing_left(effects[i]);
            }
            lemma_longest_upto_nothing(effects, effects.len() as int);
        },
        ShaderView::Repeat { fx, mode, runs, timer } => {
            match mode {
                RepeatMode::Forever => {},
                RepeatMode::Times(_) => {
                    lemma_done_iff_nothing_left(*fx);
                    if runs > 0 {
                        let n = (runs - 1) as nat;
                        if let Some(d) = fx.duration() {
                            assert(n * d == 0 <==> n == 0 || d == 0) by (nonlinear_arith);
                        }
                    }
                },
                RepeatMode::Duration(_) => {
                    timer.lemma_advance_any(Duration::from_millis_spec(0));
                },
            }
        },
        ShaderView::PingPong { fx, .. } => {
            lemma_done_iff_nothing_left(*fx);
        },
        ShaderView::Prolong { timer, inner, .. } => {
            lemma_done_iff_nothing_left(*inner);
            timer.lemma_advance_any(Duration::from_millis_spec(0));
        },
        ShaderView::NeverComplete { .. } => {},
        ShaderView::Offscreen { inner, .. } => {
            lemma_done_iff_nothing_left(*inner);
        },
        ShaderView::Temporary { inner, timer } => {
            lemma_done_iff_nothing_left(*inner);
            timer.lemma_advance_any(Duration::from_millis_spec(0));
        },
        ShaderView::Translate { wrapped, timer, .. } => {
            timer.lemma_advance_any(Duration::from_millis_spec(0));
            if let Some(fx) = wrapped {
                lemma_done_iff_nothing_left(*fx);
            }
        },
    }
}

/// A shader that runs a list of effects is timed when all of them are, and done when all
/// of them are.
pub proof fn lemma_list_unfold(x: ShaderView, v: Seq<ShaderView>)
    requires
        x == (ShaderView::Sequential { effects: v }) || x == (ShaderView::Parallel { effects: v }),
    ensures
        x.timed() <==> (forall|i: int| 0 <= i < v.len() ==> (#[trigger] v[i]).timed()),
        x.is_done() <==> (forall|i: int| 0 <= i < v.len() ==> (#[trigger] v[i]).is_done()),
{
    match x {
        ShaderView::Sequential { effects } => {
            assert(effects == v);
            if x.timed() {
                assert(forall|i: int| 0 <= i < v.len() ==> (#[trigger] effects[i]).timed());
            }
            if x.is_done() {
                assert(forall|i: int| 0 <= i < v.len() ==> (#[trigger] effects[i]).is_done());
            }
        },
        ShaderView::Parallel { effects } => {
            assert(effects == v);
            if x.timed() {
                assert(forall|i: int| 0 <= i < v.len() ==> (#[trigger] effects[i]).timed());
            }
            if x.is_done() {
                assert(forall|i: int| 0 <= i < v.len() ==> (#[trigger] effects[i]).is_done());
            }
        },
        _ => {},
    }
}

/// Whether two shaders run alike: both timed or neither, with the same time from start
/// to end, the same time left, and both done or neither; and their trees are as deep.
pub open spec fn same_timing(a: ShaderView, b: ShaderView) -> bool {
    &&& a.depth() == b.depth()
    &&& a.timed() == b.timed()
    &&& a.duration() == b.duration()
    &&& a.remaining() == b.remaining()
    &&& a.is_done() == b.is_done()
}

impl ShaderView {
    /// The shader turned round: its timers run the other way, and what it runs in order
    /// it runs in the opposite order.
    pub open spec fn reversed(self) -> ShaderView
        decreases self,
    {
        match self {
            ShaderView::Leaf { timer, area, filter, look } => ShaderView::Leaf {
                timer: timer.flipped(),
                area,
                filter,
                look,
            },
            ShaderView::Sleep { timer } => ShaderView::Sleep { timer: timer.flipped() },
            ShaderView::ConsumeTick { consumed } => ShaderView::ConsumeTick { consumed },
            ShaderView::Ansi256 { area } => ShaderView::Ansi256 { area },
            ShaderView::Sequential { effects } => ShaderView::Sequential {
                effects: Seq::new(
                    effects.len(),
                    |i: int|
                        if 0 <= i < effects.len() {
                            effects[effects.len() - 1 - i].reversed()
                        } else {
                            self
                        },
                ),
            },
            ShaderView::Parallel { effects } => ShaderView::Parallel {
                effects: Seq::new(
                    effects.len(),
                    |i: int|
                        if 0 <= i < effects.len() {
                            effects[i].reversed()
                        } else {
                            self
                        },
                ),
            },
            ShaderView::Repeat { fx, mode, runs, timer } => ShaderView::Repeat {
                fx: Box::new(fx.reversed()),
                mode,
                runs,
                timer,
            },
            ShaderView::PingPong { fx, reversing } => ShaderView::PingPong {
                fx: Box::new(fx.reversed()),
                reversing,
            },
            ShaderView::Prolong { position, timer, inner } => ShaderView::Prolong {
                position: match position {
                    ProlongPosition::Start => ProlongPosition::End,
                    ProlongPosition::End => ProlongPosition::Start,
                },
                timer,
                inner: Box::new(inner.reversed()),
            },
            ShaderView::NeverComplete { inner } => ShaderView::NeverComplete {
                inner: Box::new(inner.reversed()),
            },
            ShaderView::Offscreen { inner, target } => ShaderView::Offscreen {
                inner: Box::new(inner.reversed()),
                target,
            },
            ShaderView::Temporary { inner, timer } => ShaderView::Temporary {
                inner: Box::new(inner.reversed()),
                timer,
            },
            ShaderView::Translate { wrapped, area, anchor, change, timer } => {
                ShaderView::Translate {
                    wrapped: match wrapped {
                        Some(fx) => Some(Box::new(fx.reversed())),
                        None => None,
                    },
                    area,
                    anchor,
                    change,
                    timer: timer.flipped(),
                }
            },
        }
    }

    /// The name of the shader. An effect that blanks cells is named by its direction.
    pub open spec fn name(self) -> Seq<char> {
        match self {
            ShaderView::Leaf { timer, look, .. } => look.name(timer.runs_backwards()),
            ShaderView::Sleep { .. } => "sleep"@,
            ShaderView::ConsumeTick { .. } => "consume_tick"@,
            ShaderView::Ansi256 { .. } => "term256_colors"@,
            ShaderView::Sequential { .. } => "sequential"@,
            ShaderView::Parallel { .. } => "parallel"@,
            ShaderView::Repeat { .. } => "repeat"@,
            ShaderView::PingPong { .. } => "ping_pong"@,
            ShaderView::Prolong { .. } => "prolong"@,
            ShaderView::NeverComplete { .. } => "never_complete"@,
            ShaderView::Offscreen { .. } => "offscreen_buffer"@,
            ShaderView::Temporary { .. } => "with_duration"@,
            ShaderView::Translate { change, .. } => match change {
                AreaChange::Translate(_) => "translate"@,
                AreaChange::Resize(_) => "resize_area"@,
            },
        }
    }

    /// The area that the shader works in instead of the area that it is given, if it has
    /// one. A shader that wraps one effect has the area of that effect; a list has none.
    pub open spec fn area(self) -> Option<Rect>
        decreases self,
    {
        match self {
            ShaderView::Leaf { area, .. } => area,
            ShaderView::Sleep { .. } => None,
            ShaderView::ConsumeTick { .. } => None,
            ShaderView::Ansi256 { area } => area,
            ShaderView::Sequential { .. } => None,
            ShaderView::Parallel { .. } => None,
            ShaderView::Repeat { fx, .. } => fx.area(),
            ShaderView::PingPong { fx, .. } => fx.area(),
            ShaderView::Prolong { inner, .. } => inner.area(),
            ShaderView::NeverComplete { inner } => inner.area(),
            ShaderView::Offscreen { inner, .. } => inner.area(),
            ShaderView::Temporary { inner, .. } => inner.area(),
            ShaderView::Translate { area, .. } => area,
        }
    }

    /// The shader told to work in `to`: the order goes to every effect that it runs.
    pub open spec fn with_area(self, to: Rect) -> ShaderView
        decreases self,
    {
        match self {
            ShaderView::Leaf { timer, area, filter, look } => ShaderView::Leaf {
                timer,
                area: Some(to),
                filter,
                look,
            },
            ShaderView::Sleep { .. } => self,
            ShaderView::ConsumeTick { .. } => self,
            ShaderView::Ansi256 { .. } => ShaderView::Ansi256 { area: Some(to) },
            ShaderView::Sequential { effects } => ShaderView::Sequential {
                effects: Seq::new(
                    effects.len(),
                    |i: int|
                        if 0 <= i < effects.len() {
                            effects[i].with_area(to)
                        } else {
                            self
                        },
                ),
            },
            ShaderView::Parallel { effects } => ShaderView::Parallel {
                effects: Seq::new(
                    effects.len(),
                    |i: int|
                        if 0 <= i < effects.len() {
                            effects[i].with_area(to)
                        } else {
                            self
                        },
                ),
            },
            ShaderView::Repeat { fx, mode, runs, timer } => ShaderView::Repeat {
                fx: Box::new(fx.with_area(to)),
                mode,
                runs,
                timer,
            },
            ShaderView::PingPong { fx, reversing } => ShaderView::PingPong {
                fx: Box::new(fx.with_area(to)),
                reversing,
            },
            ShaderView::Prolong { position, timer, inner } => ShaderView::Prolong {
                position,
                timer,
                inner: Box::new(inner.with_area(to)),
            },
            ShaderView::NeverComplete { inner } => ShaderView::NeverComplete {
                inner: Box::new(inner.with_area(to)),
            },
            ShaderView::Offscreen { inner, target } => ShaderView::Offscreen {
                inner: Box::new(inner.with_area(to)),
                target,
            },
            ShaderView::Temporary { inner, timer } => ShaderView::Temporary {
                inner: Box::new(inner.with_area(to)),
                timer,
            },
            ShaderView::Translate { wrapped, area, anchor, change, timer } => {
                ShaderView::Translate {
                    wrapped,
                    area: Some(to),
                    anchor: Some(to),
                    change,
                    timer,
                }
            },
        }
    }

    /// The filter that selects the cells that the shader touches, if it has one. A shader
    /// that wraps one effect has the filter of that effect; a list has none.
    pub open spec fn filter(self) -> Option<FilterView>
        decreases self,
    {
        match self {
            ShaderView::Leaf { filter, .. } => Some(filter),
            ShaderView::Sleep { .. } => None,
            ShaderView::ConsumeTick { .. } => None,
            ShaderView::Ansi256 { .. } => None,
            ShaderView::Sequential { .. } => None,
            ShaderView::Parallel { .. } => None,
            ShaderView::Repeat { fx, .. } => fx.filter(),
            ShaderView::PingPong { fx, .. } => fx.filter(),
            ShaderView::Prolong { inner, .. } => inner.filter(),
            ShaderView::NeverComplete { inner } => inner.filter(),
            ShaderView::Offscreen { inner, .. } => inner.filter(),
            ShaderView::Temporary { inner, .. } => inner.filter(),
            ShaderView::Translate { wrapped, .. } => match wrapped {
                Some(fx) => fx.filter(),
                None => None,
            },
        }
    }

    /// The shader told to touch the cells that `to` selects: the order goes to every
    /// effect that it runs.
    pub open spec fn with_filter(self, to: FilterView) -> ShaderView
        decreases self,
    {
        match self {
            ShaderView::Leaf { timer, area, filter, look } => ShaderView::Leaf {
                timer,
                area,
                filter: to,
                look,
            },
            ShaderView::Sleep { .. } => self,
            ShaderView::ConsumeTick { .. } => self,
            ShaderView::Ansi256 { .. } => self,
            ShaderView::Sequential { effects } => ShaderView::Sequential {
                effects: Seq::new(
                    effects.len(),
                    |i: int|
                        if 0 <= i < effects.len() {
                            effects[i].with_filter(to)
                        } else {
                            self
                        },
                ),
            },
            ShaderView::Parallel { effects } => ShaderView::Parallel {
                effects: Seq::new(
                    effects.len(),
                    |i: int|
                        if 0 <= i < effects.len() {
                            effects[i].with_filter(to)
                        } else {
                            self
                        },
                ),
            },
            ShaderView::Repeat { fx, mode, runs, timer } => ShaderView::Repeat {
                fx: Box::new(fx.with_filter(to)),
                mode,
                runs,
                timer,
            },
            ShaderView::PingPong { fx, reversing } => ShaderView::PingPong {
                fx: Box::new(fx.with_filter(to)),
                reversing,
            },
            ShaderView::Prolong { position, timer, inner } => ShaderView::Prolong {
                position,
                timer,
                inner: Box::new(inner.with_filter(to)),
            },
            ShaderView::NeverComplete { inner } => ShaderView::NeverComplete {
                inner: Box::new(inner.with_filter(to)),
            },
            ShaderView::Offscreen { inner, target } => ShaderView::Offscreen {
                inner: Box::new(inner.with_filter(to)),
                target,
            },
            ShaderView::Temporary { inner, timer } => ShaderView::Temporary {
                inner: Box::new(inner.with_filter(to)),
                timer,
            },
            ShaderView::Translate { wrapped, area, anchor, change, timer } => {
                ShaderView::Translate {
                    wrapped: match wrapped {
                        Some(fx) => Some(Box::new(fx.with_filter(to))),
                        None => None,
                    },
                    area,
                    anchor,
                    change,
                    timer,
                }
            },
        }
    }
}

/// Lists whose effects run alike, one by one, make shaders that run alike.
pub proof fn lemma_same_timing_lists(a: Seq<ShaderView>, b: Seq<ShaderView>)
    requires
        a.len() == b.len(),
        forall|j: int| 0 <= j < a.len() ==> same_timing(#[trigger] a[j], b[j]),
    ensures
        same_timing(ShaderView::Sequential { effects: a }, ShaderView::Sequential { effects: b }),
        same_timing(ShaderView::Parallel { effects: a }, ShaderView::Parallel { effects: b }),
{
    lemma_list_unfold(ShaderView::Sequential { effects: a }, a);
    lemma_list_unfold(ShaderView::Sequential { effects: b }, b);
    lemma_list_unfold(ShaderView::Parallel { effects: a }, a);
    lemma_list_unfold(ShaderView::Parallel { effects: b }, b);
    assert forall|j: int| 0 <= j < a.len() implies (#[trigger] a[j]).duration()
        == b[j].duration() by {
        assert(same_timing(a[j], b[j]));
    }
    assert forall|j: int| 0 <= j < a.len() implies (#[trigger] a[j]).remaining()
        == b[j].remaining() by {
        assert(same_timing(a[j], b[j]));
    }
    assert forall|j: int| 0 <= j < a.len() implies (#[trigger] a[j]).depth() == b[j].depth() by {
        assert(same_timing(a[j], b[j]));
    }
    lemma_deepest_frame(a, b, a.len() as int);
    lemma_length_from_frame(a, b, 0);
    lemma_longest_length_frame(a, b, a.len() as int);
    lemma_left_from_frame(a, b, 0);
    lemma_longest_upto_frame(a, b, a.len() as int);
    if forall|i: int| 0 <= i < a.len() ==> (#[trigger] a[i]).timed() {
        assert forall|j: int| 0 <= j < b.len() implies (#[trigger] b[j]).timed() by {
            assert(same_timing(a[j], b[j]));
        }
    }
    if forall|i: int| 0 <= i < b.len() ==> (#[trigger] b[i]).timed() {
        assert forall|j: int| 0 <= j < a.len() implies (#[trigger] a[j]).timed() by {
            assert(same_timing(a[j], b[j]));
        }
    }
    if forall|i: int| 0 <= i < a.len() ==> (#[trigger] a[i]).is_done() {
        assert forall|j: int| 0 <= j < b.len() implies (#[trigger] b[j]).is_done() by {
            assert(same_timing(a[j], b[j]));
        }
    }
    if forall|i: int| 0 <= i < b.len() ==> (#[trigger] b[i]).is_done() {
        assert forall|j: int| 0 <= j < a.len() implies (#[trigger] a[j]).is_done() by {
            assert(same_timing(a[j], b[j]));
        }
    }
}

/// The longest that one of the first `i` effects has left depends on what each has left
/// only.
pub proof fn lemma_longest_upto_frame(a: Seq<ShaderView>, b: Seq<ShaderView>, i: int)
    requires
        a.len() == b.len(),
        forall|j: int| 0 <= j < a.len() ==> (#[trigger] a[j]).remaining() == b[j].remaining(),
    ensures
        longest_upto(a, i) == longest_upto(b, i),
    decreases i,
{
    if 0 < i <= a.len() {
        lemma_longest_upto_frame(a, b, i - 1);
    }
}

/// The time that the first `i` effects have left, together.
pub open spec fn left_upto(effects: Seq<ShaderView>, i: int) -> Option<nat>
    decreases i,
{
    if i <= 0 || i > effects.len() {
        Some(0nat)
    } else {
        plus(left_upto(effects, i - 1), effects[i - 1].remaining())
    }
}

/// The time that the first `i` effects take, together.
pub open spec fn length_upto(effects: Seq<ShaderView>, i: int) -> Option<nat>
    decreases i,
{
    if i <= 0 || i > effects.len() {
        Some(0nat)
    } else {
        plus(length_upto(effects, i - 1), effects[i - 1].duration())
    }
}

/// What is over of a step of `delta` milliseconds when it has served a shader that had
/// `before` left: nothing where the shader needs the whole step, or has no end.
pub open spec fn spare(delta: nat, before: Option<nat>) -> nat {
    match before {
        Some(t) => if t <= delta {
            (delta - t) as nat
        } else {
            0
        },
        None => 0,
    }
}

/// The part of a step of `delta` milliseconds that reaches the `i`-th effect of a
/// sequence: what the effects before it do not need. Nothing reaches an effect that
/// follows one without end.
pub open spec fn share_of(effects: Seq<ShaderView>, i: int, delta: nat) -> nat {
    spare(delta, left_upto(effects, i))
}

/// Whether a step of `delta` milliseconds reaches the `i`-th effect of a sequence: the
/// effect is not done, and either something of the step is left for it, or nothing came
/// before it that needed any.
pub open spec fn takes_step(effects: Seq<ShaderView>, i: int, delta: nat) -> bool {
    !effects[i].is_done() && (share_of(effects, i, delta) > 0 || left_upto(effects, i) == Some(
        0nat,
    ))
}

/// The more effects of a sequence are counted, the more they have left together.
pub proof fn lemma_left_upto_grows(v: Seq<ShaderView>, i: int, j: int)
    requires
        0 <= i <= j <= v.len(),
    ensures
        left_upto(v, j) matches Some(b) ==> (left_upto(v, i) matches Some(a) && a <= b),
    decreases j - i,
{
    if i < j {
        lemma_left_upto_grows(v, i, j - 1);
    }
}

/// Where the first `i` effects of a sequence need all of a step, or have no end, nothing
/// of the step reaches the effects after them.
pub proof fn lemma_share_spent(v: Seq<ShaderView>, i: int, j: int, delta: nat)
    requires
        0 <= i <= j <= v.len(),
        !(left_upto(v, i) matches Some(t) && t < delta),
    ensures
        !(left_upto(v, j) matches Some(t) && t < delta),
        share_of(v, j, delta) == 0,
    decreases j - i,
{
    if i < j {
        lemma_share_spent(v, i, j - 1, delta);
    }
}

/// What a list has left is what its first `i` effects have left and what the others
/// have left, together; and so for the time that it takes.
pub proof fn lemma_split_sums(a: Seq<ShaderView>, i: int)
    requires
        0 <= i <= a.len(),
    ensures
        left_from(a, 0) == plus(left_upto(a, i), left_from(a, i)),
        length_from(a, 0) == plus(length_upto(a, i), length_from(a, i)),
    decreases i,
{
    if i > 0 {
        lemma_split_sums(a, i - 1);
    }
}

/// A list in the opposite order, its effects running as those of `a`, has as much left
/// as `a`, and takes as long.
pub proof fn lemma_reversed_sums(a: Seq<ShaderView>, b: Seq<ShaderView>, i: int)
    requires
        a.len() == b.len(),
        0 <= i <= a.len(),
        forall|j: int| 0 <= j < a.len() ==> same_timing(#[trigger] b[j], a[a.len() - 1 - j]),
    ensures
        left_from(b, a.len() - i) == left_upto(a, i),
        length_from(b, a.len() - i) == length_upto(a, i),
    decreases i,
{
    if i > 0 {
        lemma_reversed_sums(a, b, i - 1);
        let j = a.len() - i;
        assert(same_timing(b[j], a[a.len() - 1 - j]));
        assert(left_from(b, j) == plus(b[j].remaining(), left_from(b, j + 1)));
        assert(length_from(b, j) == plus(b[j].duration(), length_from(b, j + 1)));
    }
}

/// A sequence in the opposite order, its effects running as those of `a`, runs as the
/// sequence of `a`.
pub proof fn lemma_reversed_sequence(a: Seq<ShaderView>, b: Seq<ShaderView>)
    requires
        a.len() == b.len(),
        forall|j: int| 0 <= j < a.len() ==> same_timing(#[trigger] b[j], a[a.len() - 1 - j]),
    ensures
        same_timing(ShaderView::Sequential { effects: a }, ShaderView::Sequential { effects: b }),
{
    let n = a.len() as int;
    lemma_reversed_sums(a, b, n);
    lemma_split_sums(a, n);
    assert forall|j: int| 0 <= j < n implies (#[trigger] b[j]).depth() == a[n - 1 - j].depth() by {
        assert(same_timing(b[j], a[n - 1 - j]));
    }
    lemma_deepest_bound(a, n);
    lemma_deepest_bound(b, n);
    if n > 0 {
        lemma_deepest_reached(a, n);
        lemma_deepest_reached(b, n);
        let i = choose|i: int| 0 <= i < n && a[i].depth() == deepest_upto(a, n);
        assert(b[n - 1 - i].depth() == a[n - 1 - (n - 1 - i)].depth());
        let k = choose|k: int| 0 <= k < n && b[k].depth() == deepest_upto(b, n);
        assert(b[k].depth() == a[n - 1 - k].depth());
    }
    lemma_list_unfold(ShaderView::Sequential { effects: a }, a);
    lemma_list_unfold(ShaderView::Sequential { effects: b }, b);
    if forall|i: int| 0 <= i < n ==> (#[trigger] a[i]).timed() {
        assert forall|j: int| 0 <= j < n implies (#[trigger] b[j]).timed() by {
            assert(same_timing(b[j], a[n - 1 - j]));
        }
    }
    if forall|i: int| 0 <= i < n ==> (#[trigger] b[i]).timed() {
        assert forall|j: int| 0 <= j < n implies (#[trigger] a[j]).timed() by {
            assert(same_timing(b[n - 1 - j], a[n - 1 - (n - 1 - j)]));
        }
    }
    if forall|i: int| 0 <= i < n ==> (#[trigger] a[i]).is_done() {
        assert forall|j: int| 0 <= j < n implies (#[trigger] b[j]).is_done() by {
            assert(same_timing(b[j], a[n - 1 - j]));
        }
    }
    if forall|i: int| 0 <= i < n ==> (#[trigger] b[i]).is_done() {
        assert forall|j: int| 0 <= j < n implies (#[trigger] a[j]).is_done() by {
            assert(same_timing(b[n - 1 - j], a[n - 1 - (n - 1 - j)]));
        }
    }
}

/// A sequence takes no time from the `i`-th effect on exactly when none of those effects
/// does.
pub proof fn lemma_instant_sequence(a: Seq<ShaderView>, i: int)
    requires
        0 <= i <= a.len(),
    ensures
        length_from(a, i) == Some(0nat) <==> (forall|j: int|
            i <= j < a.len() ==> (#[trigger] a[j]).duration() == Some(0nat)),
    decreases a.len() - i,
{
    if i < a.len() {
        lemma_instant_sequence(a, i + 1);
        if length_from(a, i) == Some(0nat) {
            assert forall|j: int| i <= j < a.len() implies (#[trigger] a[j]).duration() == Some(
                0nat,
            ) by {
                if j > i {
                }
            }
        } else if forall|j: int| i <= j < a.len() ==> (#[trigger] a[j]).duration() == Some(0nat) {
            assert(a[i].duration() == Some(0nat));
        }
    }
}

/// The first `i` effects, side by side, take no time exactly when none of them does.
pub proof fn lemma_instant_parallel(a: Seq<ShaderView>, i: int)
    requires
        0 <= i <= a.len(),
    ensures
        longest_length_upto(a, i) == Some(0nat) <==> (forall|j: int|
            0 <= j < i ==> (#[trigger] a[j]).duration() == Some(0nat)),
    decreases i,
{
    if i > 0 {
        lemma_instant_parallel(a, i - 1);
        if longest_length_upto(a, i) == Some(0nat) {
            assert forall|j: int| 0 <= j < i implies (#[trigger] a[j]).duration() == Some(
                0nat,
            ) by {
                if j < i - 1 {
                }
            }
        } else if forall|j: int| 0 <= j < i ==> (#[trigger] a[j]).duration() == Some(0nat) {
            assert(a[i - 1].duration() == Some(0nat));
        }
    }
}

/// The greatest depth of the first `i` effects depends on the depth of each only.
pub proof fn lemma_deepest_frame(a: Seq<ShaderView>, b: Seq<ShaderView>, i: int)
    requires
        a.len() == b.len(),
        forall|j: int| 0 <= j < a.len() ==> (#[trigger] a[j]).depth() == b[j].depth(),
    ensures
        deepest_upto(a, i) == deepest_upto(b, i),
    decreases i,
{
    if 0 < i <= a.len() {
        lemma_deepest_frame(a, b, i - 1);
    }
}

/// None of the first `i` effects is deeper than the deepest of them.
pub proof fn lemma_deepest_bound(a: Seq<ShaderView>, i: int)
    requires
        0 <= i <= a.len(),
    ensures
        forall|j: int| 0 <= j < i ==> (#[trigger] a[j]).depth() <= deepest_upto(a, i),
    decreases i,
{
    if i > 0 {
        lemma_deepest_bound(a, i - 1);
    }
}

/// One of the first `i` effects is as deep as the deepest of them.
pub proof fn lemma_deepest_reached(a: Seq<ShaderView>, i: int)
    requires
        0 < i <= a.len(),
    ensures
        exists|j: int| 0 <= j < i && (#[trigger] a[j]).depth() == deepest_upto(a, i),
    decreases i,
{
    if i > 1 {
        lemma_deepest_reached(a, i - 1);
        let j = choose|j: int| 0 <= j < i - 1 && (#[trigger] a[j]).depth() == deepest_upto(a, i - 1);
        if deepest_upto(a, i - 1) >= a[i - 1].depth() {
            assert(a[j].depth() == deepest_upto(a, i));
        } else {
            assert(a[i - 1].depth() == deepest_upto(a, i));
        }
    } else {
        assert(deepest_upto(a, 0) == 0);
        assert(a[0].depth() == deepest_upto(a, i));
    }
}

/// Every effect of a list lies less deep than the shader that runs the list.
pub proof fn lemma_list_depth(x: ShaderView, v: Seq<ShaderView>)
    requires
        x == (ShaderView::Sequential { effects: v }) || x == (ShaderView::Parallel { effects: v }),
    ensures
        forall|j: int| 0 <= j < v.len() ==> (#[trigger] v[j]).depth() < x.depth(),
{
    lemma_deepest_bound(v, v.len() as int);
}

/// What turning round, a new area and a new filter make of a list of effects that run
/// side by side, and what the last two make of a sequence: the same list, with each
/// effect so changed.
pub proof fn lemma_list_changed(v: Seq<ShaderView>, w: Seq<ShaderView>, area: Rect, filter: FilterView)
    requires
        v.len() == w.len(),
    ensures
        (forall|j: int| 0 <= j < v.len() ==> #[trigger] w[j] == v[j].reversed())
            ==> (ShaderView::Parallel { effects: v }).reversed() == (ShaderView::Parallel {
            effects: w,
        }),
        (forall|j: int| 0 <= j < v.len() ==> #[trigger] w[j] == v[v.len() - 1 - j].reversed())
            ==> (ShaderView::Sequential { effects: v }).reversed() == (ShaderView::Sequential {
            effects: w,
        }),
        (forall|j: int| 0 <= j < v.len() ==> #[trigger] w[j] == v[j].with_area(area)) ==> (
        ShaderView::Parallel { effects: v }).with_area(area) == (ShaderView::Parallel {
            effects: w,
        }) && (ShaderView::Sequential { effects: v }).with_area(area) == (ShaderView::Sequential {
            effects: w,
        }),
        (forall|j: int| 0 <= j < v.len() ==> #[trigger] w[j] == v[j].with_filter(filter)) ==> (
        ShaderView::Parallel { effects: v }).with_filter(filter) == (ShaderView::Parallel {
            effects: w,
        }) && (ShaderView::Sequential { effects: v }).with_filter(filter) == (
        ShaderView::Sequential { effects: w }),
{
    let p = ShaderView::Parallel { effects: v };
    let q = ShaderView::Sequential { effects: v };
    if forall|j: int| 0 <= j < v.len() ==> #[trigger] w[j] == v[j].reversed() {
        assert(p.reversed()->Parallel_effects =~= w);
    }
    if forall|j: int| 0 <= j < v.len() ==> #[trigger] w[j] == v[v.len() - 1 - j].reversed() {
        assert(q.reversed()->Sequential_effects =~= w);
    }
    if forall|j: int| 0 <= j < v.len() ==> #[trigger] w[j] == v[j].with_area(area) {
        assert(p.with_area(area)->Parallel_effects =~= w);
        assert(q.with_area(area)->Sequential_effects =~= w);
    }
    if forall|j: int| 0 <= j < v.len() ==> #[trigger] w[j] == v[j].with_filter(filter) {
        assert(p.with_filter(filter)->Parallel_effects =~= w);
        assert(q.with_filter(filter)->Sequential_effects =~= w);
    }
}

/// A sequence of two timed effects is timed. It has left what the two have left together,
/// takes the time of both, and is done exactly when both are.
///
/// With [`process_law`] and [`lemma_completion_reported`] this says when a sequence of
/// effects that take `d1` and `d2` is done: on the step that brings the time delivered to
/// `d1 + d2`, however the time is cut into steps; and that step hands back the time
/// delivered less `d1 + d2`.
pub proof fn lemma_sequence_of_two(a: ShaderView, b: ShaderView)
    requires
        a.timed(),
        b.timed(),
    ensures
        ({
            let s = ShaderView::Sequential { effects: seq![a, b] };
            &&& s.timed()
            &&& s.remaining() == plus(a.remaining(), b.remaining())
            &&& s.duration() == plus(a.duration(), b.duration())
            &&& s.is_done() <==> a.is_done() && b.is_done()
        }),
{
    let v = seq![a, b];
    let s = ShaderView::Sequential { effects: v };
    lemma_list_unfold(s, v);
    assert(v[0] == a && v[1] == b);
    assert(left_from(v, 2) == Some(0nat));
    assert(left_from(v, 1) == plus(b.remaining(), left_from(v, 2)));
    assert(left_from(v, 0) == plus(a.remaining(), left_from(v, 1)));
    assert(length_from(v, 2) == Some(0nat));
    assert(length_from(v, 1) == plus(b.duration(), length_from(v, 2)));
    assert(length_from(v, 0) == plus(a.duration(), length_from(v, 1)));
}

/// Two timed effects side by side are timed. They have left what the one with more left
/// has, so that the whole is not done before the longer of the two is; and they are done
/// exactly when both are.
pub proof fn lemma_parallel_of_two(a: ShaderView, b: ShaderView)
    requires
        a.timed(),
        b.timed(),
    ensures
        ({
            let p = ShaderView::Parallel { effects: seq![a, b] };
            &&& p.timed()
            &&& p.remaining() == longer(a.remaining(), b.remaining())
            &&& p.duration() == longer(a.duration(), b.duration())
            &&& p.is_done() <==> a.is_done() && b.is_done()
            &&& b.remaining() != Some(0nat) ==> !p.is_done()
        }),
{
    let v = seq![a, b];
    let p = ShaderView::Parallel { effects: v };
    lemma_list_unfold(p, v);
    lemma_done_iff_nothing_left(b);
    assert(v[0] == a && v[1] == b);
    assert(longest_upto(v, 0) == Some(0nat));
    assert(longest_upto(v, 1) == longer(longest_upto(v, 0), a.remaining()));
    assert(longest_upto(v, 2) == longer(longest_upto(v, 1), b.remaining()));
    assert(longest_length_upto(v, 0) == Some(0nat));
    assert(longest_length_upto(v, 1) == longer(longest_length_upto(v, 0), a.duration()));
    assert(longest_length_upto(v, 2) == longer(longest_length_upto(v, 1), b.duration()));
}

/// An effect played forwards and then backwards is timed as the effect is, and takes
/// twice the time of the effect. At its start it has all of that left, so that under the
/// law of time it is done on the step that brings the time delivered to twice the time
/// of the effect.
pub proof fn lemma_ping_pong(fx: ShaderView)
    requires
        fx.timed(),
    ensures
        ({
            let p = ShaderView::PingPong { fx: Box::new(fx), reversing: false };
            &&& p.timed()
            &&& p.duration() == plus(fx.duration(), fx.duration())
            &&& fx.remaining() == fx.duration() ==> p.remaining() == p.duration()
            &&& fx.duration() matches Some(d) ==> p.duration() == Some(2 * d)
        }),
{
}

/// A span of time as a timer can hold it: no longer than the longest duration.
pub open spec fn capped(d: Option<nat>) -> Option<nat> {
    match d {
        Some(x) => Some(
            if x > u32::MAX {
                u32::MAX as nat
            } else {
                x
            },
        ),
        None => None,
    }
}

/// The time at which an effect starts that follows effects of the durations `before`, the
/// first of which starts at `offset`: the sum, or the longest duration where the sum is
/// longer or one of the effects has no end.
pub open spec fn start_after(offset: nat, before: Option<nat>) -> nat {
    match capped(plus(Some(offset), before)) {
        Some(t) => t,
        None => u32::MAX as nat,
    }
}

/// The place of an effect in the course of the effect that it belongs to.
pub struct SpanView {
    /// The name of the effect.
    pub label: Seq<char>,
    /// When the effect starts, counted in milliseconds from the start of the whole.
    pub start: nat,
    /// How long the effect takes, in milliseconds; `None` where it has no end.
    pub duration: Option<nat>,
    /// The effects that this effect runs.
    pub children: Seq<SpanView>,
}

impl ShaderView {
    /// The course of the shader and of every shader in its tree, the shader starting at
    /// `offset`.
    ///
    /// The effects of a sequence start one after the other, each when those before it
    /// have run; an effect that is held at its start starts after the hold; every other
    /// effect starts when the shader that runs it does.
    pub open spec fn span(self, offset: nat) -> SpanView
        decreases self,
    {
        SpanView {
            label: self.name(),
            start: offset,
            duration: capped(self.duration()),
            children: match self {
                ShaderView::Sequential { effects } => Seq::new(
                    effects.len(),
                    |i: int|
                        if 0 <= i < effects.len() {
                            effects[i].span(start_after(offset, length_upto(effects, i)))
                        } else {
                            self.span_end()
                        },
                ),
                ShaderView::Parallel { effects } => Seq::new(
                    effects.len(),
                    |i: int|
                        if 0 <= i < effects.len() {
                            effects[i].span(offset)
                        } else {
                            self.span_end()
                        },
                ),
                ShaderView::Repeat { fx, .. } => seq![fx.span(offset)],
                ShaderView::PingPong { fx, .. } => seq![fx.span(offset)],
                ShaderView::Prolong { position, timer, inner } => seq![
                    inner.span(
                        match position {
                            ProlongPosition::Start => start_after(offset, Some(timer.total())),
                            ProlongPosition::End => offset,
                        },
                    ),
                ],
                ShaderView::NeverComplete { inner } => seq![inner.span(offset)],
                ShaderView::Offscreen { inner, .. } => seq![inner.span(offset)],
                ShaderView::Temporary { inner, .. } => seq![inner.span(offset)],
                ShaderView::Translate { wrapped, .. } => match wrapped {
                    Some(fx) => seq![fx.span(offset)],
                    None => Seq::empty(),
                },
                _ => Seq::empty(),
            },
        }
    }

    /// The timer of the shader, if it has one: the timer of a shader that paints cells or
    /// lets time pass; for every other shader that has an end, a linear timer of the time
    /// that it takes.
    pub open spec fn timer(self) -> Option<EffectTimer> {
        match self {
            ShaderView::Leaf { timer, .. } => Some(timer),
            ShaderView::Sleep { timer } => Some(timer),
            _ => lasting(capped(self.duration())),
        }
    }

    /// Whether the shader paints cells as its alpha says: it blanks, fades, sweeps, slides
    /// or moves another buffer.
    pub open spec fn paints_by_alpha(self) -> bool {
        self matches ShaderView::Leaf { look, .. } && !(look is Custom)
    }

    /// The timer that the shader keeps for itself, if it keeps one: the timer of a shader
    /// that paints cells or lets time pass, and the limit of an effect that is limited in
    /// time.
    pub open spec fn own_timer(self) -> Option<EffectTimer> {
        match self {
            ShaderView::Leaf { timer, .. } => Some(timer),
            ShaderView::Sleep { timer } => Some(timer),
            ShaderView::Temporary { timer, .. } => Some(timer),
            _ => None,
        }
    }

    /// The shader with `timer` in place of its own timer; the shader itself where it has
    /// no timer of its own.
    pub open spec fn with_timer(self, timer: EffectTimer) -> ShaderView {
        match self {
            ShaderView::Leaf { area, filter, look, .. } => ShaderView::Leaf {
                timer,
                area,
                filter,
                look,
            },
            ShaderView::Sleep { .. } => ShaderView::Sleep { timer },
            ShaderView::Temporary { inner, .. } => ShaderView::Temporary { inner, timer },
            _ => self,
        }
    }

    /// A span without content.
    pub open spec fn span_end(self) -> SpanView {
        SpanView { label: Seq::empty(), start: 0, duration: None, children: Seq::empty() }
    }
}

/// A linear timer of `d` milliseconds; none where there is no such time.
pub open spec fn lasting(d: Option<nat>) -> Option<EffectTimer> {
    match d {
        Some(d) => Some(
            EffectTimer::fresh(Duration::from_millis_spec(d as u32), Interpolation::Linear),
        ),
        None => None,
    }
}

/// The span of a shader that runs a list of effects has the spans of the effects as its
/// children: each from its own start in a sequence, all from the start of the whole side
/// by side.
pub proof fn lemma_list_span(x: ShaderView, v: Seq<ShaderView>, offset: nat, children: Seq<SpanView>)
    requires
        x == (ShaderView::Sequential { effects: v }) || x == (ShaderView::Parallel { effects: v }),
        children.len() == v.len(),
        forall|j: int|
            0 <= j < v.len() ==> #[trigger] children[j] == v[j].span(
                if x is Sequential {
                    start_after(offset, length_upto(v, j))
                } else {
                    offset
                },
            ),
    ensures
        x.span(offset) == (SpanView {
            label: x.name(),
            start: offset,
            duration: capped(x.duration()),
            children,
        }),
{
    assert(x.span(offset).children =~= children);
}

} // verus!
