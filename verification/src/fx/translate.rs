//! An effect that moves or resizes the area of another effect.

use vstd::prelude::*;
use crate::shader::{stepped, paints_cells};
use crate::effect_span::{millis_of, EffectSpan};
use crate::shader_view::{capped, lasting};
use crate::effect_span::longer_capped;
use ratatui::buffer::Buffer;
use ratatui::layout::{Rect, Size};
use crate::cell_filter::CellFilter;
use crate::duration::Duration;
use crate::effect::Effect;
use crate::effect_timer::EffectTimer;
use crate::interpolation::ALPHA_ONE;
use crate::shader::{reset_to, rewinds, step_holds};
use crate::shader_view::{
    left_after_step, lemma_done_iff_nothing_left, same_timing, AreaChange, ShaderView,
};

verus! {

/// The share `alpha` of a distance, rounded towards zero.
pub open spec fn travelled(distance: i16, alpha: u32) -> int {
    if distance >= 0 {
        distance * alpha / (ALPHA_ONE as int)
    } else {
        -((-distance) * alpha / (ALPHA_ONE as int))
    }
}

/// A coordinate moved by `by`, kept between zero and `most`.
pub open spec fn moved_within(from: u16, by: int, most: u16) -> u16 {
    if from + by < 0 {
        0
    } else if from + by > most {
        most
    } else {
        (from + by) as u16
    }
}

/// The rectangle `base` moved by the share `alpha` of `by`, columns first, and kept within
/// the coordinate space.
pub open spec fn translated(base: Rect, by: (i16, i16), alpha: u32) -> Rect {
    Rect {
        x: moved_within(base.x, travelled(by.0, alpha), (u16::MAX - base.width) as u16),
        y: moved_within(base.y, travelled(by.1, alpha), (u16::MAX - base.height) as u16),
        width: base.width,
        height: base.height,
    }
}

/// The length between `from` and `to` at the share `alpha` of the way, rounded down.
pub open spec fn length_between(from: u16, to: u16, alpha: u32) -> u16 {
    ((from * (ALPHA_ONE - alpha) + to * alpha) / (ALPHA_ONE as int)) as u16
}

/// The rectangle `base` with a size between `from` and its own, at the share `alpha` of
/// the way; its corner stays where it is.
pub open spec fn resized(base: Rect, from: Size, alpha: u32) -> Rect {
    Rect {
        x: base.x,
        y: base.y,
        width: length_between(from.width, base.width, alpha),
        height: length_between(from.height, base.height, alpha),
    }
}

/// What the change has made of `base` at `alpha`.
pub open spec fn changed(base: Rect, change: AreaChange, alpha: u32) -> Rect {
    match change {
        AreaChange::Translate(by) => translated(base, by, alpha),
        AreaChange::Resize(from) => resized(base, from, alpha),
    }
}

/// The length between `from` and `to` at the share `alpha` of the way.
fn length_at(from: u16, to: u16, alpha: u32) -> (n: u16)
    requires
        alpha <= ALPHA_ONE,
    ensures
        n == length_between(from, to, alpha),
{
    assert(0 <= from * (65536 - alpha) + to * alpha <= 65535 * 65536) by (nonlinear_arith)
        requires
            0 <= from <= 65535,
            0 <= to <= 65535,
            0 <= alpha <= 65536,
    ;
    let sum: u64 = (from as u64) * ((ALPHA_ONE - alpha) as u64) + (to as u64) * (alpha as u64);
    (sum / (ALPHA_ONE as u64)) as u16
}

/// What the change has made of `base` at `alpha`.
fn change_rect(base: Rect, change: &AreaChange, alpha: u32) -> (r: Rect)
    requires
        alpha <= ALPHA_ONE,
    ensures
        r == changed(base, *change, alpha),
{
    match change {
        AreaChange::Translate(by) => translate_rect(base, *by, alpha),
        AreaChange::Resize(from) => Rect {
            x: base.x,
            y: base.y,
            width: length_at(from.width, base.width, alpha),
            height: length_at(from.height, base.height, alpha),
        },
    }
}

/// The share `alpha` of a distance, rounded towards zero.
fn travel(distance: i16, alpha: u32) -> (d: i64)
    requires
        alpha <= ALPHA_ONE,
    ensures
        d == travelled(distance, alpha),
        -32768 <= d <= 32767,
{
    if distance >= 0 {
        assert(0 <= distance * alpha / 65536 <= distance && distance * alpha <= 32767 * 65536)
            by (nonlinear_arith)
            requires
                0 <= distance <= 32767,
                0 <= alpha <= 65536,
        ;
        ((distance as i64) * (alpha as i64)) / (ALPHA_ONE as i64)
    } else {
        assert(0 <= (-distance) * alpha / 65536 <= -distance && (-distance) * alpha <= 32768
            * 65536) by (nonlinear_arith)
            requires
                0 < -distance <= 32768,
                0 <= alpha <= 65536,
        ;
        -(((-(distance as i64)) * (alpha as i64)) / (ALPHA_ONE as i64))
    }
}

/// A coordinate moved by `by`, kept between zero and `most`.
fn move_within(from: u16, by: i64, most: u16) -> (to: u16)
    requires
        -32768 <= by <= 32767,
    ensures
        to == moved_within(from, by as int, most),
{
    let target: i64 = from as i64 + by;
    if target < 0 {
        0
    } else if target > most as i64 {
        most
    } else {
        target as u16
    }
}

/// The rectangle `base` moved by the share `alpha` of `by`.
fn translate_rect(base: Rect, by: (i16, i16), alpha: u32) -> (moved: Rect)
    requires
        alpha <= ALPHA_ONE,
    ensures
        moved == translated(base, by, alpha),
{
    Rect {
        x: move_within(base.x, travel(by.0, alpha), u16::MAX - base.width),
        y: move_within(base.y, travel(by.1, alpha), u16::MAX - base.height),
        width: base.width,
        height: base.height,
    }
}

/// The shorter of two spans of time.
fn shorter_of(a: Duration, b: Duration) -> (d: Duration)
    ensures
        d == if a.millis() <= b.millis() { a } else { b },
{
    if a.as_millis() <= b.as_millis() {
        a
    } else {
        b
    }
}

/// Moves an area, or resizes it, over the time of its timer: as far as the timer's alpha
/// says of the whole way, or to the size that lies as far between the first size and the
/// area's own. The area is the one that the shader was told to work in, or else the first
/// that it is given. An effect that the shader wraps is told to work in the moved area
/// before it is advanced, and runs side by side with the move.
pub struct Translate {
    fx: Option<Effect>,
    area: Option<Rect>,
    anchor: Option<Rect>,
    change: AreaChange,
    timer: EffectTimer,
}

/// How a step of `delta` reaches the effect that a move carries: the effect takes the
/// whole step, whatever the move needs of it.
pub open spec fn carried_step(before: ShaderView, delta: Duration, after: ShaderView) -> bool {
    before matches ShaderView::Translate { wrapped: Some(fx), .. } ==> (after matches ShaderView::Translate {
        wrapped: Some(run),
        ..
    } && run.remaining() == left_after_step(fx.remaining(), delta.millis()))
}

impl Translate {
    /// The state of the shader.
    pub closed spec fn model(self) -> ShaderView
        decreases self,
    {
        ShaderView::Translate {
            wrapped: match self.fx {
                Some(fx) => Some(Box::new(fx.model())),
                None => None,
            },
            area: self.area,
            anchor: self.anchor,
            change: self.change,
            timer: self.timer,
        }
    }

    /// A move by `translate_by`, columns first, over the time of `timer`, of the area of
    /// `fx` if there is one.
    pub fn new(fx: Option<Effect>, translate_by: (i16, i16), timer: EffectTimer) -> (shader:
        Translate)
        ensures
            shader.model() == (ShaderView::Translate {
                wrapped: match fx {
                    Some(fx) => Some(Box::new(fx.model())),
                    None => None,
                },
                area: None,
                anchor: None,
                change: AreaChange::Translate(translate_by),
                timer,
            }),
    {
        Self { fx, area: None, anchor: None, change: AreaChange::Translate(translate_by), timer }
    }

    /// A change of size from `initial_size` to the area's own, over the time of `timer`,
    /// of the area of `fx` if there is one.
    pub fn resizing(fx: Option<Effect>, initial_size: Size, timer: EffectTimer) -> (shader:
        Translate)
        ensures
            shader.model() == (ShaderView::Translate {
                wrapped: match fx {
                    Some(fx) => Some(Box::new(fx.model())),
                    None => None,
                },
                area: None,
                anchor: None,
                change: AreaChange::Resize(initial_size),
                timer,
            }),
    {
        Self { fx, area: None, anchor: None, change: AreaChange::Resize(initial_size), timer }
    }

    /// The name of the shader.
    pub fn name(&self) -> (name: &'static str)
        ensures
            name@ == self.model().name(),
    {
        match &self.change {
            AreaChange::Translate(_) => "translate",
            AreaChange::Resize(_) => "resize_area",
        }
    }

    /// Advances the move by `duration`, and the wrapped effect within the moved area.
    ///
    /// Returns the time left over on the step that completes the second of the two. The
    /// area of the shader is then what the change has made of the base area at the
    /// timer's alpha.
    pub fn process(&mut self, duration: Duration, buf: &mut Buffer, area: Rect) -> (overflow:
        Option<Duration>)
        ensures
            paints_cells(final(self).model(), area, *old(buf), *final(buf)),
            stepped(
                old(self).model(),
                duration,
                final(self).model(),
                area,
                *old(buf),
                *final(buf),
            ),
            step_holds(
                old(self).model(),
                duration,
                final(self).model(),
                overflow,
                *old(buf),
                *final(buf),
            ),
            final(self).model()->Translate_timer == old(self).model()->Translate_timer.advanced(
                duration,
            ),
            final(self).model()->anchor == Some(
                match old(self).model()->anchor {
                    Some(base) => base,
                    None => area,
                },
            ),
            final(self).model().area() == Some(
                changed(
                    final(self).model()->anchor.unwrap(),
                    old(self).model()->change,
                    final(self).model()->Translate_timer.alpha_value() as u32,
                ),
            ),
            old(self).model().timed() ==> carried_step(
                old(self).model(),
                duration,
                final(self).model(),
            ),
        decreases old(self).model().depth(), 0int,
    {
        proof {
            reveal(stepped);
        }
        proof {
            self.timer.lemma_advance_any(duration);
            self.timer.advanced(duration).lemma_alpha_at_ends();
            if old(self).model().timed() {
                if let Some(fx) = old(self).fx {
                    lemma_done_iff_nothing_left(fx.model());
                }
            }
        }
        let moving = !self.timer.done();
        let arrived = self.timer.process(duration);
        let alpha = self.timer.alpha();
        let base = match self.anchor {
            Some(base) => base,
            None => area,
        };
        self.anchor = Some(base);
        let moved = change_rect(base, &self.change, alpha);
        self.area = Some(moved);
        let mut running = false;
        let mut finished: Option<Duration> = None;
        match &mut self.fx {
            Some(fx) => {
                fx.set_area(moved);
                proof {
                    if old(self).model().timed() {
                        lemma_done_iff_nothing_left(fx.model());
                    }
                }
                if fx.done() {
                    if !moving {
                        let _ = fx.process(Duration::zero(), buf, moved);
                    }
                } else {
                    running = true;
                    finished = fx.process(duration, buf, moved);
                    proof {
                        if old(self).model().timed() {
                            lemma_done_iff_nothing_left(fx.model());
                        }
                    }
                }
            },
            None => {},
        }
        if !self.timer.done() {
            None
        } else if running {
            match (arrived, finished) {
                (_, None) => None,
                (None, Some(b)) => Some(b),
                (Some(a), Some(b)) => Some(shorter_of(a, b)),
            }
        } else {
            arrived
        }
    }

    /// Whether the move is over and the wrapped effect is done.
    pub fn done(&self) -> (r: bool)
        ensures
            r == self.model().is_done(),
        decreases self,
    {
        self.timer.done() && match &self.fx {
            Some(fx) => fx.done(),
            None => true,
        }
    }

    /// Whether neither the move nor the wrapped effect takes any time.
    pub fn is_instant(&self) -> (r: bool)
        ensures
            r == self.model().instant(),
        decreases self,
    {
        self.timer.duration().is_zero() && match &self.fx {
            Some(fx) => fx.is_instant(),
            None => true,
        }
    }

    /// Puts the move and the wrapped effect back to their start.
    pub fn reset(&mut self)
        ensures
            rewinds(old(self).model(), final(self).model()),
        decreases old(self).model().depth(), 0int,
    {
        proof {
            reveal(reset_to);
        }
        proof {
            self.timer.lemma_parts(
                Duration::from_millis_spec(0),
                self.timer.curve_kind(),
                Duration::from_millis_spec(0),
            );
        }
        self.timer.reset();
        match &mut self.fx {
            Some(fx) => {
                fx.reset();
            },
            None => {},
        }
    }

    /// Turns the move and the wrapped effect round.
    pub fn reverse(&mut self)
        ensures
            final(self).model() == old(self).model().reversed(),
            same_timing(old(self).model(), final(self).model()),
            final(self).model().area() == old(self).model().area(),
            final(self).model().filter() == old(self).model().filter(),
        decreases *old(self),
    {
        proof {
            self.timer.lemma_parts(
                Duration::from_millis_spec(0),
                self.timer.curve_kind(),
                Duration::from_millis_spec(0),
            );
        }
        self.timer = self.timer.reversed();
        match &mut self.fx {
            Some(fx) => {
                fx.reverse();
            },
            None => {},
        }
    }

    /// The area as far as it has moved.
    pub fn area(&self) -> (area: Option<Rect>)
        ensures
            area == self.model().area(),
    {
        self.area
    }

    /// Makes `area` the area that is moved.
    pub fn set_area(&mut self, area: Rect)
        ensures
            final(self).model() == old(self).model().with_area(area),
            same_timing(old(self).model(), final(self).model()),
    {
        self.area = Some(area);
        self.anchor = Some(area);
    }

    /// The filter of the wrapped effect.
    pub fn cell_selection(&self) -> (filter: Option<CellFilter>)
        ensures
            filter is Some == self.model().filter() is Some,
            filter matches Some(f) ==> Some(f@) == self.model().filter(),
        decreases self,
    {
        match &self.fx {
            Some(fx) => fx.cell_selection(),
            None => None,
        }
    }

    /// Makes the wrapped effect touch the cells that `filter` selects.
    pub fn set_cell_selection(&mut self, filter: CellFilter)
        ensures
            final(self).model() == old(self).model().with_filter(filter@),
            same_timing(old(self).model(), final(self).model()),
        decreases *old(self),
    {
        match &mut self.fx {
            Some(fx) => {
                fx.set_cell_selection(filter);
            },
            None => {},
        }
    }

    /// The timer of the move.
    pub fn timer(&self) -> (timer: EffectTimer)
        ensures
            timer == self.model()->Translate_timer,
    {
        self.timer
    }

    /// A copy of the shader.
    pub fn duplicate(&self) -> (copy: Translate)
        ensures
            copy.model() == self.model(),
        decreases self,
    {
        Translate {
            fx: match &self.fx {
                Some(fx) => Some(fx.duplicate()),
                None => None,
            },
            area: self.area,
            anchor: self.anchor,
            change: match &self.change {
                AreaChange::Translate(by) => AreaChange::Translate(*by),
                AreaChange::Resize(from) => AreaChange::Resize(
                    Size { width: from.width, height: from.height },
                ),
            },
            timer: self.timer,
        }
    }
}

impl Translate {
    /// The shader does not paint by alpha.
    pub proof fn lemma_paints_by_code(self)
        ensures
            !self.model().paints_by_alpha(),
    {
    }

    /// The shader keeps no timer that its user may change.
    pub proof fn lemma_keeps_no_timer(self)
        ensures
            self.model().own_timer() is None,
    {
    }

    /// The time that the shader takes from its start to its end; `None` where it has no
    /// end.
    pub fn total_duration(&self) -> (d: Option<Duration>)
        ensures
            millis_of(d) == capped(self.model().duration()),
            self.model().timer() == lasting(capped(self.model().duration())),
        decreases self,
    {
        let own = self.timer.duration();
        proof {
            own.lemma_millis_bounded();
        }
        match &self.fx {
            Some(fx) => longer_capped(Some(own), fx.total_duration()),
            None => Some(own),
        }
    }

    /// The course of the shader and of the effect that it wraps, the shader starting at
    /// `offset`.
    pub fn as_effect_span(&self, offset: Duration) -> (span: EffectSpan)
        ensures
            span.model() == self.model().span(offset.millis()),
        decreases self,
    {
        match &self.fx {
            Some(fx) => {
                let child = fx.as_effect_span(offset);
                EffectSpan::wrapping(self.name(), offset, self.total_duration(), child)
            },
            None => EffectSpan::leaf(self.name(), offset, self.total_duration()),
        }
    }
}

} // verus!
