//! The course of an effect in time, for tools that draw it.

use vstd::prelude::*;
use crate::duration::Duration;
use crate::shader_view::{capped, longer, plus, shorter, start_after, times, SpanView};

verus! {

/// The place of an effect in the course of the effect that it belongs to: its name, when
/// it starts, how long it takes, and the same for the effects that it runs.
pub struct EffectSpan {
    /// The name of the effect.
    pub label: &'static str,
    /// When the effect starts, counted from the start of the whole.
    pub start: Duration,
    /// How long the effect takes; `None` where it has no end. A time too long for a
    /// duration counts as the longest duration.
    pub duration: Option<Duration>,
    /// The effects that this effect runs.
    pub children: Vec<EffectSpan>,
}

/// The spans of a list as mathematical values.
pub open spec fn span_views(spans: Seq<EffectSpan>) -> Seq<SpanView>
    decreases spans,
{
    Seq::new(
        spans.len(),
        |i: int|
            if 0 <= i < spans.len() {
                spans[i].model()
            } else {
                SpanView { label: Seq::empty(), start: 0, duration: None, children: Seq::empty() }
            },
    )
}

/// The milliseconds of a duration that may be missing.
pub open spec fn millis_of(d: Option<Duration>) -> Option<nat> {
    match d {
        Some(x) => Some(x.millis()),
        None => None,
    }
}

impl EffectSpan {
    /// The span as a mathematical value.
    pub open spec fn model(self) -> SpanView
        decreases self,
    {
        SpanView {
            label: self.label@,
            start: self.start.millis(),
            duration: millis_of(self.duration),
            children: span_views(self.children@),
        }
    }

    /// The span of an effect that runs no other effects.
    pub fn leaf(label: &'static str, start: Duration, duration: Option<Duration>) -> (span:
        EffectSpan)
        ensures
            span.model() == (SpanView {
                label: label@,
                start: start.millis(),
                duration: millis_of(duration),
                children: Seq::empty(),
            }),
    {
        let span = EffectSpan { label, start, duration, children: Vec::new() };
        assert(span_views(span.children@) =~= Seq::empty());
        span
    }

    /// The span of an effect that runs one other effect.
    pub fn wrapping(
        label: &'static str,
        start: Duration,
        duration: Option<Duration>,
        child: EffectSpan,
    ) -> (span: EffectSpan)
        ensures
            span.model() == (SpanView {
                label: label@,
                start: start.millis(),
                duration: millis_of(duration),
                children: seq![child.model()],
            }),
    {
        let mut children: Vec<EffectSpan> = Vec::new();
        children.push(child);
        let span = EffectSpan { label, start, duration, children };
        assert(span_views(span.children@) =~= seq![child.model()]);
        span
    }
}

impl View for EffectSpan {
    type V = SpanView;

    open spec fn view(&self) -> SpanView {
        self.model()
    }
}

/// The sum of two durations, or the longest duration where the sum is longer.
pub fn add_capped(a: Duration, b: Duration) -> (d: Duration)
    ensures
        Some(d.millis()) == capped(Some(a.millis() + b.millis())),
{
    proof {
        a.lemma_millis_bounded();
        b.lemma_millis_bounded();
    }
    let sum: u64 = a.as_millis() as u64 + b.as_millis() as u64;
    if sum > u32::MAX as u64 {
        Duration::from_millis(u32::MAX)
    } else {
        Duration::from_millis(sum as u32)
    }
}

/// The sum of two durations either of which may be without end.
pub fn plus_capped(a: Option<Duration>, b: Option<Duration>) -> (d: Option<Duration>)
    ensures
        forall|x: Option<nat>, y: Option<nat>|
            millis_of(a) == capped(x) && millis_of(b) == capped(y) ==> millis_of(d) == capped(
                #[trigger] plus(x, y),
            ),
{
    match (a, b) {
        (Some(x), Some(y)) => Some(add_capped(x, y)),
        _ => None,
    }
}

/// The longer of two durations either of which may be without end.
pub fn longer_capped(a: Option<Duration>, b: Option<Duration>) -> (d: Option<Duration>)
    ensures
        forall|x: Option<nat>, y: Option<nat>|
            millis_of(a) == capped(x) && millis_of(b) == capped(y) ==> millis_of(d) == capped(
                #[trigger] longer(x, y),
            ),
{
    match (a, b) {
        (Some(x), Some(y)) => Some(
            if x.as_millis() >= y.as_millis() {
                x
            } else {
                y
            },
        ),
        _ => None,
    }
}

/// The shorter of two durations either of which may be without end.
pub fn shorter_capped(a: Option<Duration>, b: Option<Duration>) -> (d: Option<Duration>)
    ensures
        forall|x: Option<nat>, y: Option<nat>|
            millis_of(a) == capped(x) && millis_of(b) == capped(y) ==> millis_of(d) == capped(
                #[trigger] shorter(x, y),
            ),
{
    match (a, b) {
        (Some(x), Some(y)) => Some(
            if x.as_millis() <= y.as_millis() {
                x
            } else {
                y
            },
        ),
        (Some(x), None) => Some(x),
        (None, Some(y)) => Some(y),
        (None, None) => None,
    }
}

/// A duration that may be without end, `n` times over.
pub fn times_capped(n: u32, a: Option<Duration>) -> (d: Option<Duration>)
    ensures
        forall|x: Option<nat>|
            millis_of(a) == capped(x) ==> millis_of(d) == capped(#[trigger] times(n as nat, x)),
{
    match a {
        Some(x) => {
            proof {
                x.lemma_millis_bounded();
                assert forall|y: Option<nat>| millis_of(a) == capped(y) implies capped(
                    #[trigger] times(n as nat, y),
                ) == capped(Some((n * x.millis()) as nat)) by {
                    let v = y.unwrap();
                    if v > u32::MAX && n > 0 {
                        assert(n * v > u32::MAX && n * x.millis() >= u32::MAX) by (nonlinear_arith)
                            requires
                                v > u32::MAX,
                                x.millis() == u32::MAX,
                                n > 0,
                        ;
                    }
                }
                assert(0 <= n * x.millis() <= 0xffff_ffff * 0xffff_ffff) by (nonlinear_arith)
                    requires
                        0 <= n <= 0xffff_ffff,
                        0 <= x.millis() <= 0xffff_ffff,
                ;
            }
            let product: u64 = (n as u64) * (x.as_millis() as u64);
            if product > u32::MAX as u64 {
                Some(Duration::from_millis(u32::MAX))
            } else {
                Some(Duration::from_millis(product as u32))
            }
        },
        None => if n == 0 {
            Some(Duration::zero())
        } else {
            None
        },
    }
}

/// The time at which an effect starts that follows effects of the durations `before`, the
/// first of which starts at `offset`.
pub fn start_of_next(offset: Duration, before: Option<Duration>) -> (start: Duration)
    ensures
        forall|x: Option<nat>|
            millis_of(before) == capped(x) ==> start.millis() == #[trigger] start_after(
                offset.millis(),
                x,
            ),
{
    proof {
        offset.lemma_millis_bounded();
    }
    match before {
        Some(b) => add_capped(offset, b),
        None => Duration::from_millis(u32::MAX),
    }
}

} // verus!
