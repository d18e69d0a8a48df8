//! The shaders: the units that change cells as time passes.

use vstd::prelude::*;
use crate::effect_span::{millis_of, EffectSpan};
use crate::shader_view::{capped, lasting};
use crate::effect_timer::EffectTimer;
use crate::interpolation::Interpolation;
use ratatui::buffer::Buffer;
use ratatui::layout::Rect;
use crate::buffer::{buffer_area, buffer_cells};
use crate::buffer_renderer::is_blitted;
use crate::cell_iter::{is_selection, CellIterator};
use crate::interpolation::{clamp_alpha, clamped_alpha, ALPHA_ONE};
use crate::fx::ansi256::indexed_paint;
use crate::fx::dissolve::{is_dissolved, listed};
use crate::fx::fade::fade_paint;
use crate::fx::paint::is_painted;
use crate::fx::slide::slide_paint_of;
use crate::fx::sweep_in::sweep_paint_of;
use crate::fx::translate_buffer::offset_at_alpha;
use crate::fx::ping_pong::turn_step;
use crate::fx::prolong::hold_step;
use crate::fx::repeat::repeat_step;
use crate::fx::translate::changed;
use crate::shader_view::{Look, ProlongPosition, RepeatMode};
use ratatui::layout::Position;
use crate::duration::Duration;
use crate::cell_filter::CellFilter;
use crate::fx::ansi256::Ansi256;
use crate::fx::consume_tick::ConsumeTick;
use crate::fx::containers::{ParallelEffect, SequentialEffect};
use crate::fx::dissolve::Dissolve;
use crate::fx::fade::FadeColors;
use crate::fx::slide::SlideCell;
use crate::fx::sweep_in::SweepIn;
use crate::fx::never_complete::NeverComplete;
use crate::fx::offscreen_buffer::OffscreenBuffer;
use crate::fx::translate_buffer::TranslateBuffer;
use crate::fx::ping_pong::PingPong;
use crate::fx::prolong::Prolong;
use crate::fx::repeat::Repeat;
use crate::fx::shader_fn::ShaderFn;
use crate::fx::sleep::Sleep;
use crate::fx::temporary::TemporaryEffect;
use crate::fx::translate::Translate;
use crate::shader_view::{
    lemma_done_iff_nothing_left, lemma_list_unfold, lemma_parallel_of_two, lemma_ping_pong,
    lemma_sequence_of_two, left_upto, plus, process_law, same_timing, share_of, spare, takes_step,
    ShaderView,
};
use crate::effect_timer::total_millis;

verus! {

/// Whether two buffers cover the same area with the same number of cells.
pub open spec fn same_frame(a: Buffer, b: Buffer) -> bool {
    buffer_area(a) == buffer_area(b) && buffer_cells(a).len() == buffer_cells(b).len()
}

/// What holds of the state of every shader after every step.
///
/// The shader's tree stays as deep as it was. The shader stays timed or not as it was,
/// and keeps the time that it takes from start to end. A timed shader obeys the law of
/// time. No step hands back more time than it was given, and only the step that
/// completes a shader hands any back.
pub open spec fn step_timing(
    before: ShaderView,
    delta: Duration,
    after: ShaderView,
    reported: Option<Duration>,
) -> bool {
    &&& after.depth() == before.depth()
    &&& after.timed() == before.timed()
    &&& after.duration() == before.duration()
    &&& before.timed() ==> process_law(
        before.remaining(),
        delta.millis(),
        after.remaining(),
        reported,
    )
    &&& reported matches Some(o) ==> o.millis() <= delta.millis()
    &&& reported is Some ==> after.is_done()
    &&& reported is Some && before.timed() ==> !before.is_done()
    &&& before.is_done() ==> after.is_done()
}

/// What holds of a shader that has been put back to its start.
///
/// Its tree is as deep as it was. It is timed or not as it was and takes the time it
/// took. What it has left is all of that time, and it is done only if it takes none.
pub open spec fn rewinds(before: ShaderView, after: ShaderView) -> bool {
    &&& after.depth() == before.depth()
    &&& after.timed() == before.timed()
    &&& after.duration() == before.duration()
    &&& after.remaining() == after.duration()
    &&& after.is_done() ==> after.instant()
    &&& after.area() == before.area()
    &&& after.filter() == before.filter()
    &&& reset_to(before, after)
}

/// What putting a shader back to its start does to its state.
///
/// Every timer in the tree is put back to its start and keeps its duration, its curve
/// and its direction. Looks, areas, filters and the kinds of the shaders stay. The shader
/// that uses up one step has its step again, a repetition by number has all its runs
/// again, and an effect that was on its way back is turned forwards.
#[verifier::opaque]
pub open spec fn reset_to(before: ShaderView, after: ShaderView) -> bool
    decreases after,
{
    match after {
        ShaderView::Leaf { timer: fresh, area: own, filter: selects, look: kind } => before matches ShaderView::Leaf {
            timer,
            area,
            filter,
            look,
        } && fresh == timer.rewound() && own == area && selects == filter && kind == look,
        ShaderView::Sleep { timer: fresh } => before matches ShaderView::Sleep { timer } && fresh
            == timer.rewound(),
        ShaderView::ConsumeTick { consumed } => before is ConsumeTick && !consumed,
        ShaderView::Ansi256 { .. } => after == before,
        ShaderView::Sequential { effects: now } => before matches ShaderView::Sequential {
            effects: was,
        } && was.len() == now.len() && forall|j: int|
            0 <= j < now.len() ==> reset_to(was[j], #[trigger] now[j]),
        ShaderView::Parallel { effects: now } => before matches ShaderView::Parallel {
            effects: was,
        } && was.len() == now.len() && forall|j: int|
            0 <= j < now.len() ==> reset_to(was[j], #[trigger] now[j]),
        ShaderView::Repeat { fx: now, mode: same, runs: left, timer: fresh } => before matches ShaderView::Repeat {
            fx: was,
            mode,
            runs,
            timer,
        } && same == mode && fresh == timer.rewound() && left == (match mode {
            RepeatMode::Times(n) => n,
            _ => runs,
        }) && reset_to(*was, *now),
        ShaderView::PingPong { fx: now, reversing: turned } => before matches ShaderView::PingPong {
            fx: was,
            reversing,
        } && !turned && reset_to(
            if reversing {
                was.reversed()
            } else {
                *was
            },
            *now,
        ),
        ShaderView::Prolong { position: place, timer: fresh, inner: now } => before matches ShaderView::Prolong {
            position,
            timer,
            inner: was,
        } && place == position && fresh == timer.rewound() && reset_to(*was, *now),
        ShaderView::NeverComplete { inner: now } => before matches ShaderView::NeverComplete {
            inner: was,
        } && reset_to(*was, *now),
        ShaderView::Offscreen { inner: now, target: other } => before matches ShaderView::Offscreen {
            inner: was,
            target,
        } && other == target && reset_to(*was, *now),
        ShaderView::Temporary { inner: now, timer: fresh } => before matches ShaderView::Temporary {
            inner: was,
            timer,
        } && fresh == timer.rewound() && reset_to(*was, *now),
        ShaderView::Translate { wrapped, area: own, anchor: base, change: by, timer: fresh } => before matches ShaderView::Translate {
            wrapped: carried,
            area,
            anchor,
            change,
            timer,
        } && fresh == timer.rewound() && own == area && base == anchor && by == change && match (
            carried,
            wrapped,
        ) {
            (Some(was), Some(now)) => reset_to(*was, *now),
            (None, None) => true,
            _ => false,
        },
    }
}

/// What holds of every step of every shader: [`step_timing`], and the buffer keeps its
/// area and the number of its cells.
pub open spec fn step_holds(
    before: ShaderView,
    delta: Duration,
    after: ShaderView,
    reported: Option<Duration>,
    buf_before: Buffer,
    buf_after: Buffer,
) -> bool {
    same_frame(buf_before, buf_after) && step_timing(before, delta, after, reported)
}

/// What painting at `alpha` leaves in the buffer, for a shader whose kind paints by
/// alpha.
///
/// `view` is the state of the shader, `area` the area that it is given, `before` and
/// `after` the buffer before and after. The shader paints the cells that its filter
/// selects within the area, as its kind says; every other cell stays as it was. Of the
/// other kinds of shader this says nothing.
pub open spec fn paints_at(
    view: ShaderView,
    alpha: u32,
    area: Rect,
    before: Buffer,
    after: Buffer,
) -> bool {
    match view {
        ShaderView::Leaf { filter, look, .. } => {
            match look {
                Look::Dissolve { style, rng } => exists|positions: Seq<Position>|
                    is_selection(
                        positions,
                        buffer_cells(before),
                        buffer_area(before),
                        area,
                        Some(filter),
                    ) && #[trigger] is_dissolved(
                        buffer_cells(before),
                        buffer_cells(after),
                        buffer_area(before),
                        positions,
                        alpha,
                        rng.state(),
                        style,
                    ),
                Look::Fade { fg, bg } => exists|positions: Seq<Position>|
                    is_selection(
                        positions,
                        buffer_cells(before),
                        buffer_area(before),
                        area,
                        Some(filter),
                    ) && #[trigger] is_painted(
                        buffer_cells(before),
                        buffer_cells(after),
                        buffer_area(before),
                        positions,
                        fade_paint(fg, bg, alpha),
                    ),
                Look::Sweep { .. } => exists|positions: Seq<Position>|
                    is_selection(
                        positions,
                        buffer_cells(before),
                        buffer_area(before),
                        area,
                        Some(filter),
                    ) && #[trigger] is_painted(
                        buffer_cells(before),
                        buffer_cells(after),
                        buffer_area(before),
                        positions,
                        sweep_paint_of(view, area, alpha),
                    ),
                Look::Slide { .. } => exists|positions: Seq<Position>|
                    is_selection(
                        positions,
                        buffer_cells(before),
                        buffer_area(before),
                        area,
                        Some(filter),
                    ) && #[trigger] is_painted(
                        buffer_cells(before),
                        buffer_cells(after),
                        buffer_area(before),
                        positions,
                        slide_paint_of(view, area, alpha),
                    ),
                Look::TranslateBuffer { by, .. } => exists|source: Buffer|
                    #[trigger] is_blitted(
                        source,
                        buffer_area(source),
                        before,
                        after,
                        offset_at_alpha(by, alpha),
                    ),
                Look::Custom { .. } => true,
            }
        },
        _ => true,
    }
}

/// What a step of a shader that paints cells leaves in the buffer.
///
/// `view` is the state of the shader after the step, `area` the area that it was given,
/// `before` and `after` the buffer before and after the step. A shader that paints by
/// alpha has painted at the alpha that its timer shows after the step, as [`paints_at`]
/// has it. Of a shader that runs the caller's code on the selected cells, it is known
/// that every other cell stays as it was, and of one that runs the caller's code on the
/// buffer, nothing. Of a shader that runs other effects this says nothing: what they
/// paint is told by their own steps.
pub open spec fn paints_cells(view: ShaderView, area: Rect, before: Buffer, after: Buffer) -> bool {
    match view {
        ShaderView::Leaf { timer, filter, look, .. } => {
            match look {
                Look::Custom { code } => code is Iter ==> exists|positions: Seq<Position>|
                    #[trigger] is_selection(
                        positions,
                        buffer_cells(before),
                        buffer_area(before),
                        area,
                        Some(filter),
                    ) && forall|j: int|
                        0 <= j < buffer_cells(before).len() && !#[trigger] listed(
                            buffer_area(before),
                            positions,
                            j,
                        ) ==> buffer_cells(after)[j] == buffer_cells(before)[j],
                _ => paints_at(view, timer.alpha_value() as u32, area, before, after),
            }
        },
        ShaderView::Ansi256 { .. } => exists|positions: Seq<Position>|
            is_selection(positions, buffer_cells(before), buffer_area(before), area, None)
                && #[trigger] is_painted(
                buffer_cells(before),
                buffer_cells(after),
                buffer_area(before),
                positions,
                indexed_paint(),
            ),
        _ => true,
    }
}

/// The area that an effect works in when it is given `area`: its own, if it has one.
pub open spec fn area_for(view: ShaderView, area: Rect) -> Rect {
    match view.area() {
        Some(own) => own,
        None => area,
    }
}

/// Whether `chain` leads from the buffer `from` to the buffer `to` in `n` links.
pub open spec fn is_chain(chain: Seq<Buffer>, from: Buffer, to: Buffer, n: nat) -> bool {
    chain.len() == n + 1 && chain[0] == from && chain[n as int] == to
}

/// What a step of `delta` does to a shader and to the buffer.
///
/// `before` and `after` are the states of the shader before and after the step, `area`
/// is the area that it was given, `from` and `to` are the buffer before and after the
/// step.
///
/// A shader that paints cells keeps its look, its area and its filter; its timer is
/// advanced by the step, and it has painted as [`paints_cells`] says. A pause has its
/// timer advanced and leaves the buffer as it was, and so does the shader that uses up
/// one step, which is used up afterwards.
///
/// An effect that is kept from ending has taken the step. An effect that is limited in
/// time has taken the step too, and so has the limit. An effect that is held has taken
/// its share of the step, [`held_share`], and the hold the rest, as [`hold_step`] says. A
/// shader that paints into a buffer of its own has left this buffer as it was, and its
/// effect has taken the step in another buffer, within the area of that buffer. An effect whose area is moved has been given
/// the area as the step has moved it, and has taken the step within it; once it is done
/// it is painted as it is, and only when the move is over too.
///
/// Effects side by side have taken the step one after the other, each painting into what
/// the one before it left: an effect that was done has kept its state and left the buffer
/// as it was.
///
/// In a sequence an effect that was done has kept its state. The effects of a sequence
/// of timed effects have taken the step one after the other: an effect that the step
/// reaches has taken what the effects before it did not need of the step, and any other
/// has kept its state and left the buffer as it was.
///
/// An effect that is played forwards and backwards has taken the step on its way, as
/// [`turn_step`] says. The step that turns it round has first brought it to the end of
/// its way forwards; then the effect has been turned round and put back to its start,
/// [`turn_at`], and has taken what is left of the step on its way back. An effect that
/// takes no time is never turned round.
///
/// Of a repetition the count is said, by [`repeat_step`]. Its effect has taken the step
/// in one leg or in several, [`is_course`]: whenever a leg has brought it to its end and
/// there is more to do, it has been put back to its start and has gone on from there.
#[verifier::opaque]
pub open spec fn stepped(
    before: ShaderView,
    delta: Duration,
    after: ShaderView,
    area: Rect,
    from: Buffer,
    to: Buffer,
) -> bool
    decreases before.depth(),
{
    match after {
        ShaderView::Leaf { timer: advanced, area: own, filter: selects, look: kind } => before matches ShaderView::Leaf {
            timer,
            area: had,
            filter,
            look,
        } && advanced == timer.advanced(delta) && own == had && selects == filter && kind == look
            && paints_cells(after, area, from, to),
        ShaderView::Sleep { timer: advanced } => before matches ShaderView::Sleep { timer }
            && advanced == timer.advanced(delta) && to == from,
        ShaderView::ConsumeTick { consumed } => before is ConsumeTick && consumed && to == from,
        ShaderView::Ansi256 { .. } => after == before && paints_cells(after, area, from, to),
        ShaderView::NeverComplete { inner: now } => before matches ShaderView::NeverComplete {
            inner: was,
        } && stepped(*was, delta, *now, area_for(*was, area), from, to),
        ShaderView::Parallel { effects: now } => before matches ShaderView::Parallel {
            effects: was,
        } && was.len() == now.len() && exists|chain: Seq<Buffer>|
            #[trigger] is_chain(chain, from, to, now.len()) && forall|j: int|
                0 <= j < now.len() ==> if was[j].is_done() {
                    (#[trigger] now[j]) == was[j] && chain[j + 1] == chain[j]
                } else {
                    was[j].depth() < before.depth() && stepped(
                        was[j],
                        delta,
                        now[j],
                        area_for(was[j], area),
                        chain[j],
                        chain[j + 1],
                    )
                },
        ShaderView::Sequential { effects: now } => before matches ShaderView::Sequential {
            effects: was,
        } && was.len() == now.len() && (forall|j: int|
            0 <= j < was.len() && (#[trigger] was[j]).is_done() ==> now[j] == was[j])
            && (before.timed() ==> exists|chain: Seq<Buffer>|
            #[trigger] is_chain(chain, from, to, now.len()) && forall|j: int|
                0 <= j < now.len() ==> if takes_step(was, j, delta.millis()) {
                    was[j].depth() < before.depth() && stepped(
                        was[j],
                        Duration::from_millis_spec(share_of(was, j, delta.millis()) as u32),
                        #[trigger] now[j],
                        area_for(was[j], area),
                        chain[j],
                        chain[j + 1],
                    )
                } else {
                    now[j] == was[j] && chain[j + 1] == chain[j]
                }),
        ShaderView::Temporary { inner: now, timer: limit } => before matches ShaderView::Temporary {
            inner: was,
            timer,
        } && limit == timer.advanced(delta) && stepped(
            *was,
            delta,
            *now,
            area_for(*was, area),
            from,
            to,
        ),
        ShaderView::Prolong { position: place, inner: now, .. } => before matches ShaderView::Prolong {
            position,
            timer,
            inner: was,
        } && place == position && (before.timed() ==> hold_step(before, delta, after)) && stepped(
            *was,
            held_share(position, timer, *was, delta),
            *now,
            area_for(*was, area),
            from,
            to,
        ),
        ShaderView::Offscreen { inner: now, target: other } => before matches ShaderView::Offscreen {
            inner: was,
            target,
        } && other == target && to == from && exists|x: Buffer, y: Buffer|
            #[trigger] same_frame(x, y) && stepped(
                *was,
                delta,
                *now,
                area_for(*was, buffer_area(x)),
                x,
                y,
            ),
        ShaderView::Translate { wrapped, anchor: base, change: by, timer: advanced, .. } => before matches ShaderView::Translate {
            wrapped: carried,
            anchor,
            change,
            timer,
            ..
        } && advanced == timer.advanced(delta) && by == change && base == Some(
            match anchor {
                Some(b) => b,
                None => area,
            },
        ) && after.area() == Some(changed(base.unwrap(), change, advanced.alpha_value() as u32))
            && match (carried, wrapped) {
            (Some(was), Some(now)) => {
                let moved = after.area().unwrap();
                let placed = was.with_area(moved);
                placed.depth() < before.depth() && if !placed.is_done() {
                    stepped(placed, delta, *now, area_for(placed, moved), from, to)
                } else if timer.is_done() {
                    stepped(
                        placed,
                        Duration::from_millis_spec(0),
                        *now,
                        area_for(placed, moved),
                        from,
                        to,
                    )
                } else {
                    *now == placed && to == from
                }
            },
            (None, None) => to == from,
            _ => false,
        },
        ShaderView::PingPong { fx: now, reversing: turned } => before matches ShaderView::PingPong {
            fx: was,
            reversing,
        } && (before.timed() ==> turn_step(before, delta, after)) && if reversing {
            turned && stepped(*was, delta, *now, area_for(*was, area), from, to)
        } else if turned {
            exists|mid: ShaderView, start: ShaderView, left: Duration, chain: Seq<Buffer>|
                #[trigger] turn_at(mid, start, left, chain, from, to) && start.depth()
                    < before.depth() && (if was.is_done() {
                    mid == *was && chain[1] == from && left == delta && stepped(
                        start,
                        delta,
                        *now,
                        area_for(start, area),
                        chain[1],
                        to,
                    )
                } else {
                    stepped(*was, delta, mid, area_for(*was, area), from, chain[1]) && (if start.is_done()
                        || left.millis() == 0 {
                        *now == start && to == chain[1]
                    } else {
                        stepped(start, left, *now, area_for(start, area), chain[1], to)
                    })
                }) && (before.timed() ==> left.millis() == spare(
                    delta.millis(),
                    was.remaining(),
                ))
        } else if was.is_done() {
            *now == *was && to == from
        } else {
            stepped(*was, delta, *now, area_for(*was, area), from, to)
        },
        ShaderView::Repeat { fx: now, .. } => before matches ShaderView::Repeat { fx: was, .. }
            && repeat_step(before, delta, after) && exists|legs: Seq<Leg>, chain: Seq<Buffer>|
            #[trigger] is_course(*was, legs, *now, chain, from, to) && forall|i: int|
                0 <= i < legs.len() ==> (#[trigger] legs[i]).start.depth() < before.depth()
                    && legs[i].time.millis() <= delta.millis() && stepped(
                    legs[i].start,
                    legs[i].time,
                    legs[i].end,
                    area_for(legs[i].start, area),
                    chain[i],
                    chain[i + 1],
                ),
    }
}

/// One run, or part of a run, of an effect that is repeated: the state in which the
/// effect started on it, the time that it was given, and the state in which it ended.
pub struct Leg {
    pub start: ShaderView,
    pub time: Duration,
    pub end: ShaderView,
}

/// Whether the legs follow one another as the runs of an effect that was in the state
/// `was`: the first starts where the effect was, or, if the effect was done, where
/// putting it back to its start has brought it; every other starts where putting the
/// effect back to its start has brought it from the end of the leg before, which was
/// done.
#[verifier::opaque]
pub open spec fn links(was: ShaderView, legs: Seq<Leg>) -> bool {
    &&& legs.len() > 0 ==> (legs[0].start == was || (was.is_done() && rewinds(was, legs[0].start)))
    &&& forall|i: int|
        0 <= i < legs.len() - 1 ==> (#[trigger] legs[i]).end.is_done() && rewinds(
            legs[i].end,
            legs[i + 1].start,
        )
}

/// Whether the legs are the course that a repeated effect took within one step, from the
/// state `was` to the state `now`, and `chain` the buffers before, between and after
/// them. The effect ends where its last leg ended, or, that leg being done, put back to
/// its start.
pub open spec fn is_course(
    was: ShaderView,
    legs: Seq<Leg>,
    now: ShaderView,
    chain: Seq<Buffer>,
    from: Buffer,
    to: Buffer,
) -> bool {
    &&& legs.len() >= 1
    &&& is_chain(chain, from, to, legs.len())
    &&& links(was, legs)
    &&& now == legs.last().end || (legs.last().end.is_done() && rewinds(legs.last().end, now))
}

/// Whether the effect has taken each of the legs as a step of its own, painting into
/// what the leg before left, none of them longer than `delta`. `bound` is the depth of
/// the shader that repeats the effect.
#[verifier::opaque]
pub open spec fn legs_stepped(
    legs: Seq<Leg>,
    chain: Seq<Buffer>,
    delta: Duration,
    area: Rect,
    bound: nat,
) -> bool {
    forall|i: int|
        0 <= i < legs.len() ==> (#[trigger] legs[i]).start.depth() < bound && legs[i].time.millis()
            <= delta.millis() && stepped(
            legs[i].start,
            legs[i].time,
            legs[i].end,
            area_for(legs[i].start, area),
            chain[i],
            chain[i + 1],
        )
}

/// A course grows by a leg that starts where the course has come to.
pub proof fn lemma_course_grows(
    was: ShaderView,
    legs: Seq<Leg>,
    chain: Seq<Buffer>,
    leg: Leg,
    to: Buffer,
    delta: Duration,
    area: Rect,
    bound: nat,
)
    requires
        chain.len() == legs.len() + 1,
        links(was, legs),
        legs_stepped(legs, chain, delta, area, bound),
        if legs.len() == 0 {
            leg.start == was || (was.is_done() && rewinds(was, leg.start))
        } else {
            legs.last().end.is_done() && rewinds(legs.last().end, leg.start)
        },
        leg.start.depth() < bound,
        leg.time.millis() <= delta.millis(),
        stepped(leg.start, leg.time, leg.end, area_for(leg.start, area), chain.last(), to),
    ensures
        links(was, legs.push(leg)),
        legs_stepped(legs.push(leg), chain.push(to), delta, area, bound),
        is_chain(chain.push(to), chain[0], to, legs.len() + 1),
{
    reveal(links);
    reveal(legs_stepped);
    let more = legs.push(leg);
    let longer = chain.push(to);
    let n = legs.len() as int;
    assert forall|i: int| 0 <= i < more.len() - 1 implies (#[trigger] more[i]).end.is_done()
        && rewinds(more[i].end, more[i + 1].start) by {
        if i < n - 1 {
            assert(more[i] == legs[i] && more[i + 1] == legs[i + 1]);
        } else {
            assert(more[i] == legs.last() && more[i + 1] == leg);
        }
    }
    assert forall|i: int| 0 <= i < more.len() implies (#[trigger] more[i]).start.depth() < bound
        && more[i].time.millis() <= delta.millis() && stepped(
        more[i].start,
        more[i].time,
        more[i].end,
        area_for(more[i].start, area),
        longer[i],
        longer[i + 1],
    ) by {
        if i < n {
            assert(more[i] == legs[i]);
            assert(longer[i] == chain[i] && longer[i + 1] == chain[i + 1]);
        } else {
            assert(more[i] == leg);
            assert(longer[i] == chain.last() && longer[i + 1] == to);
        }
    }
}

/// Whether an effect that has come to the state `mid` on its way forwards starts its way
/// back in the state `start`: turned round and put back to its start. `chain` holds the
/// buffer before the step, the buffer as the way forwards left it, and the buffer after
/// the step; `left` is the time of the step that is left for the way back.
pub open spec fn turn_at(
    mid: ShaderView,
    start: ShaderView,
    left: Duration,
    chain: Seq<Buffer>,
    from: Buffer,
    to: Buffer,
) -> bool {
    is_chain(chain, from, to, 2) && rewinds(mid.reversed(), start)
}

/// The part of a step of `delta` that reaches an effect that is held for the time of
/// `timer`.
///
/// Held at its start, the effect gets what the hold does not need of the step: the whole
/// step once the hold is over, and nothing while the hold lasts or where the effect is
/// done by the time the hold ends. Held at its end, the effect gets the whole step until
/// it is done, and nothing from then on. An effect that gets nothing is painted as it is.
pub open spec fn held_share(
    position: ProlongPosition,
    timer: EffectTimer,
    inner: ShaderView,
    delta: Duration,
) -> Duration {
    match position {
        ProlongPosition::Start => if timer.is_done() {
            delta
        } else {
            match timer.overflow(delta) {
                Some(left) if !inner.is_done() => Duration::from_millis_spec(left as u32),
                _ => Duration::from_millis_spec(0),
            }
        },
        ProlongPosition::End => if inner.is_done() {
            Duration::from_millis_spec(0)
        } else {
            delta
        },
    }
}

/// What a step of `delta` does to the `j`-th of the effects `was` of a sequence of
/// timed effects, and to the buffer: an effect that the step reaches takes its share of
/// the step; any other keeps its state and leaves the buffer as it is.
pub open spec fn reached(
    was: Seq<ShaderView>,
    j: int,
    delta: Duration,
    now: ShaderView,
    area: Rect,
    from: Buffer,
    to: Buffer,
) -> bool {
    if takes_step(was, j, delta.millis()) {
        stepped(
            was[j],
            Duration::from_millis_spec(share_of(was, j, delta.millis()) as u32),
            now,
            area_for(was[j], area),
            from,
            to,
        )
    } else {
        now == was[j] && to == from
    }
}

/// Of two effects side by side, one that is done is left alone: it keeps its state, and
/// what the step leaves in the buffer is what the other effect paints by itself.
#[verifier::spinoff_prover]
#[verifier::rlimit(60)]
pub proof fn lemma_parallel_leaves_done(
    a: ShaderView,
    b: ShaderView,
    after: ShaderView,
    delta: Duration,
    area: Rect,
    from: Buffer,
    to: Buffer,
)
    requires
        a.is_done(),
        !b.is_done(),
        stepped(ShaderView::Parallel { effects: seq![a, b] }, delta, after, area, from, to),
    ensures
        after matches ShaderView::Parallel { effects: now } && now.len() == 2 && now[0] == a
            && stepped(b, delta, now[1], area_for(b, area), from, to),
{
    reveal(stepped);
    let was = seq![a, b];
    assert(after is Parallel);
    let now = after->Parallel_effects;
    assert(now.len() == was.len());
    assert(exists|chain: Seq<Buffer>|
        #[trigger] is_chain(chain, from, to, now.len()) && forall|j: int|
            0 <= j < now.len() ==> if was[j].is_done() {
                (#[trigger] now[j]) == was[j] && chain[j + 1] == chain[j]
            } else {
                was[j].depth() < (ShaderView::Parallel { effects: was }).depth() && stepped(
                    was[j],
                    delta,
                    now[j],
                    area_for(was[j], area),
                    chain[j],
                    chain[j + 1],
                )
            });
    let chain = choose|chain: Seq<Buffer>|
        #[trigger] is_chain(chain, from, to, now.len()) && forall|j: int|
            0 <= j < now.len() ==> if was[j].is_done() {
                (#[trigger] now[j]) == was[j] && chain[j + 1] == chain[j]
            } else {
                was[j].depth() < (ShaderView::Parallel { effects: was }).depth() && stepped(
                    was[j],
                    delta,
                    now[j],
                    area_for(was[j], area),
                    chain[j],
                    chain[j + 1],
                )
            };
    assert(is_chain(chain, from, to, now.len()));
    assert(was[0] == a && was[1] == b);
    let first = now[0];
    let second = now[1];
    assert(was[0].is_done() && !was[1].is_done());
    assert(now[0] == was[0] && chain[1] == chain[0]);
    assert(stepped(was[1], delta, now[1], area_for(was[1], area), chain[1], chain[2]));
}

/// A step that is shorter than what the first of two effects in sequence has left does
/// not reach the second: the second keeps its state. A step that is longer gives the
/// second, if it is not done, exactly the rest, and the second paints into what the first
/// left.
#[verifier::spinoff_prover]
#[verifier::rlimit(60)]
pub proof fn lemma_sequence_shares(
    a: ShaderView,
    b: ShaderView,
    m: nat,
    after: ShaderView,
    delta: Duration,
    area: Rect,
    from: Buffer,
    to: Buffer,
)
    requires
        a.timed(),
        b.timed(),
        a.remaining() == Some(m),
        m > 0,
        stepped(ShaderView::Sequential { effects: seq![a, b] }, delta, after, area, from, to),
    ensures
        after matches ShaderView::Sequential { effects: now } && now.len() == 2 && (delta.millis()
            <= m ==> now[1] == b) && (delta.millis() > m && !b.is_done() ==> exists|within: Buffer|
            #[trigger] same_frame(within, within) && stepped(
                b,
                Duration::from_millis_spec((delta.millis() - m) as u32),
                now[1],
                area_for(b, area),
                within,
                to,
            )),
{
    reveal(stepped);
    let was = seq![a, b];
    let before = ShaderView::Sequential { effects: was };
    assert(after is Sequential);
    let now = after->Sequential_effects;
    lemma_list_unfold(before, was);
    assert(was[0] == a && was[1] == b);
    assert(before.timed());
    assert(left_upto(was, 0) == Some(0nat));
    assert(left_upto(was, 1) == plus(left_upto(was, 0), was[0].remaining()));
    assert(left_upto(was, 1) == Some(m));
    assert(exists|chain: Seq<Buffer>|
        #[trigger] is_chain(chain, from, to, now.len()) && forall|j: int|
            0 <= j < now.len() ==> if takes_step(was, j, delta.millis()) {
                was[j].depth() < before.depth() && stepped(
                    was[j],
                    Duration::from_millis_spec(share_of(was, j, delta.millis()) as u32),
                    #[trigger] now[j],
                    area_for(was[j], area),
                    chain[j],
                    chain[j + 1],
                )
            } else {
                now[j] == was[j] && chain[j + 1] == chain[j]
            });
    let chain = choose|chain: Seq<Buffer>|
        #[trigger] is_chain(chain, from, to, now.len()) && forall|j: int|
            0 <= j < now.len() ==> if takes_step(was, j, delta.millis()) {
                was[j].depth() < before.depth() && stepped(
                    was[j],
                    Duration::from_millis_spec(share_of(was, j, delta.millis()) as u32),
                    #[trigger] now[j],
                    area_for(was[j], area),
                    chain[j],
                    chain[j + 1],
                )
            } else {
                now[j] == was[j] && chain[j + 1] == chain[j]
            };
    assert(is_chain(chain, from, to, now.len()));
    let second = now[1];
    if delta.millis() <= m {
        assert(!takes_step(was, 1, delta.millis()));
        assert(now[1] == was[1]);
    } else if !b.is_done() {
        assert(takes_step(was, 1, delta.millis()));
        assert(share_of(was, 1, delta.millis()) == delta.millis() - m);
        assert(same_frame(chain[1], chain[1]));
        assert(stepped(
            b,
            Duration::from_millis_spec((delta.millis() - m) as u32),
            now[1],
            area_for(b, area),
            chain[1],
            chain[2],
        ));
    }
}

/// Where all the effects side by side are done, a step leaves them and the buffer as
/// they are.
#[verifier::spinoff_prover]
#[verifier::rlimit(60)]
pub proof fn lemma_parallel_at_rest(
    was: Seq<ShaderView>,
    after: ShaderView,
    delta: Duration,
    area: Rect,
    from: Buffer,
    to: Buffer,
)
    requires
        forall|j: int| 0 <= j < was.len() ==> (#[trigger] was[j]).is_done(),
        stepped(ShaderView::Parallel { effects: was }, delta, after, area, from, to),
    ensures
        after == (ShaderView::Parallel { effects: was }),
        to == from,
{
    reveal(stepped);
    assert(after is Parallel);
    let now = after->Parallel_effects;
    assert(exists|chain: Seq<Buffer>|
        #[trigger] is_chain(chain, from, to, now.len()) && forall|j: int|
            0 <= j < now.len() ==> if was[j].is_done() {
                (#[trigger] now[j]) == was[j] && chain[j + 1] == chain[j]
            } else {
                was[j].depth() < (ShaderView::Parallel { effects: was }).depth() && stepped(
                    was[j],
                    delta,
                    now[j],
                    area_for(was[j], area),
                    chain[j],
                    chain[j + 1],
                )
            });
    let chain = choose|chain: Seq<Buffer>|
        #[trigger] is_chain(chain, from, to, now.len()) && forall|j: int|
            0 <= j < now.len() ==> if was[j].is_done() {
                (#[trigger] now[j]) == was[j] && chain[j + 1] == chain[j]
            } else {
                was[j].depth() < (ShaderView::Parallel { effects: was }).depth() && stepped(
                    was[j],
                    delta,
                    now[j],
                    area_for(was[j], area),
                    chain[j],
                    chain[j + 1],
                )
            };
    assert(is_chain(chain, from, to, now.len()));
    assert forall|j: int| 0 <= j < now.len() implies now[j] == was[j] && chain[j + 1]
        == #[trigger] chain[j] by {
        let x = now[j];
        assert(was[j].is_done());
        assert(if was[j].is_done() {
            now[j] == was[j] && chain[j + 1] == chain[j]
        } else {
            stepped(was[j], delta, now[j], area_for(was[j], area), chain[j], chain[j + 1])
        });
    }
    lemma_chain_at_rest(chain, now.len() as int);
    assert(now =~= was);
}

/// A chain of buffers in which every link leaves the buffer as it is ends as it began.
proof fn lemma_chain_at_rest(chain: Seq<Buffer>, k: int)
    requires
        0 <= k < chain.len(),
        forall|j: int| 0 <= j < chain.len() - 1 ==> chain[j + 1] == #[trigger] chain[j],
    ensures
        chain[k] == chain[0],
    decreases k,
{
    if k > 0 {
        lemma_chain_at_rest(chain, k - 1);
        assert(chain[k - 1 + 1] == chain[k - 1]);
    }
}

/// Whether `states`, `steps` and `reports` tell of a run: a shader in the state
/// `states[0]` took the steps of `steps` one after the other, the `i`-th of them brought
/// it to `states[i + 1]` and handed back `reports[i]`, and [`step_timing`] holds of each
/// step, as it does of every call of `process`.
pub open spec fn is_run(
    states: Seq<ShaderView>,
    steps: Seq<Duration>,
    reports: Seq<Option<Duration>>,
) -> bool {
    &&& states.len() == steps.len() + 1
    &&& reports.len() == steps.len()
    &&& forall|i: int|
        0 <= i < steps.len() ==> step_timing(states[i], steps[i], states[i + 1], #[trigger] reports[i])
}

/// What the last step of a run hands back to a shader that had `t` milliseconds left at
/// the start of the run: on the step that brings the time delivered to `t`, the time
/// delivered less `t`; on every other step nothing.
pub open spec fn reports_completion(
    t: nat,
    steps: Seq<Duration>,
    reports: Seq<Option<Duration>>,
) -> bool {
    steps.len() > 0 && reports.len() == steps.len() ==> {
        let earlier = total_millis(steps.drop_last());
        let total = total_millis(steps);
        if earlier < t && t <= total {
            reports.last() matches Some(o) && o.millis() == total - t
        } else {
            reports.last() is None
        }
    }
}

/// It does not matter how time is cut into steps. A timed shader that has `t`
/// milliseconds left has, after a run of steps, `t` less the time delivered left, or
/// nothing. It is done exactly when the time delivered has reached `t`, and the step that
/// brings the time delivered there, and no other, hands back what it did not need.
pub proof fn lemma_run(
    states: Seq<ShaderView>,
    steps: Seq<Duration>,
    reports: Seq<Option<Duration>>,
    t: nat,
)
    requires
        is_run(states, steps, reports),
        states[0].timed(),
        states[0].remaining() == Some(t),
    ensures
        states.last().timed(),
        states.last().remaining() == Some(
            if t <= total_millis(steps) {
                0nat
            } else {
                (t - total_millis(steps)) as nat
            },
        ),
        states.last().is_done() <==> t <= total_millis(steps),
        reports_completion(t, steps, reports),
    decreases steps.len(),
{
    if steps.len() > 0 {
        let n = steps.len() as int;
        let earlier_states = states.drop_last();
        let earlier_steps = steps.drop_last();
        let earlier_reports = reports.drop_last();
        assert forall|i: int| 0 <= i < earlier_steps.len() implies step_timing(
            earlier_states[i],
            earlier_steps[i],
            earlier_states[i + 1],
            #[trigger] earlier_reports[i],
        ) by {
            assert(earlier_reports[i] == reports[i]);
            assert(step_timing(states[i], steps[i], states[i + 1], reports[i]));
        }
        lemma_run(earlier_states, earlier_steps, earlier_reports, t);
        assert(earlier_states.last() == states[n - 1]);
        assert(reports.last() == reports[n - 1]);
        assert(step_timing(states[n - 1], steps[n - 1], states[n], reports[n - 1]));
    }
    lemma_done_iff_nothing_left(states.last());
}

/// Two fresh effects in sequence that take `d1` and `d2` milliseconds are done exactly
/// when `d1 + d2` milliseconds have been delivered, in one step or in many. Both effects
/// are done then, and the step that completes the sequence hands back the time delivered
/// less `d1 + d2`.
pub proof fn lemma_sequence_run(
    a: ShaderView,
    b: ShaderView,
    d1: nat,
    d2: nat,
    states: Seq<ShaderView>,
    steps: Seq<Duration>,
    reports: Seq<Option<Duration>>,
)
    requires
        a.timed(),
        b.timed(),
        a.remaining() == Some(d1),
        b.remaining() == Some(d2),
        states[0] == (ShaderView::Sequential { effects: seq![a, b] }),
        is_run(states, steps, reports),
    ensures
        states.last().is_done() <==> d1 + d2 <= total_millis(steps),
        reports_completion(d1 + d2, steps, reports),
        states.last() matches ShaderView::Sequential { effects } ==> (d1 + d2 <= total_millis(steps)
            <==> forall|i: int| 0 <= i < effects.len() ==> (#[trigger] effects[i]).is_done()),
{
    lemma_sequence_of_two(a, b);
    lemma_run(states, steps, reports, d1 + d2);
    if let ShaderView::Sequential { effects } = states.last() {
        lemma_list_unfold(states.last(), effects);
    }
}

/// Two fresh effects side by side that take `d1` and `d2` milliseconds, `d1` the
/// shorter, are done exactly when `d2` milliseconds have been delivered, in one step or
/// in many: not before the longer effect is.
pub proof fn lemma_parallel_run(
    a: ShaderView,
    b: ShaderView,
    d1: nat,
    d2: nat,
    states: Seq<ShaderView>,
    steps: Seq<Duration>,
    reports: Seq<Option<Duration>>,
)
    requires
        a.timed(),
        b.timed(),
        a.remaining() == Some(d1),
        b.remaining() == Some(d2),
        d1 <= d2,
        states[0] == (ShaderView::Parallel { effects: seq![a, b] }),
        is_run(states, steps, reports),
    ensures
        states.last().is_done() <==> d2 <= total_millis(steps),
        reports_completion(d2, steps, reports),
{
    lemma_parallel_of_two(a, b);
    lemma_run(states, steps, reports, d2);
}

/// A fresh effect that takes `d` milliseconds, played forwards and then backwards, is
/// done exactly when twice `d` milliseconds have been delivered, in one step or in many.
pub proof fn lemma_ping_pong_run(
    fx: ShaderView,
    d: nat,
    states: Seq<ShaderView>,
    steps: Seq<Duration>,
    reports: Seq<Option<Duration>>,
)
    requires
        fx.timed(),
        fx.duration() == Some(d),
        fx.remaining() == Some(d),
        states[0] == (ShaderView::PingPong { fx: Box::new(fx), reversing: false }),
        is_run(states, steps, reports),
    ensures
        states.last().is_done() <==> 2 * d <= total_millis(steps),
        reports_completion(2 * d, steps, reports),
{
    lemma_ping_pong(fx);
    lemma_run(states, steps, reports, 2 * d);
}

/// A unit of change to cells, driven by time: one of the effects of this library.
pub enum Shader {
    Dissolve(Dissolve),
    ShaderFn(ShaderFn),
    Fade(FadeColors),
    TranslateBuffer(TranslateBuffer),
    Sweep(SweepIn),
    Slide(SlideCell),
    Sleep(Sleep),
    ConsumeTick(ConsumeTick),
    Ansi256(Ansi256),
    NeverComplete(NeverComplete),
    Offscreen(OffscreenBuffer),
    Sequential(SequentialEffect),
    Parallel(ParallelEffect),
    PingPong(PingPong),
    Prolong(Prolong),
    Temporary(TemporaryEffect),
    Repeat(Repeat),
    Translate(Translate),
}

impl Shader {
    /// The state of the shader.
    pub open spec fn model(self) -> ShaderView
        decreases self,
    {
        match self {
            Shader::Dissolve(s) => s.model(),
            Shader::ShaderFn(s) => s.model(),
            Shader::Fade(s) => s.model(),
            Shader::TranslateBuffer(s) => s.model(),
            Shader::Sweep(s) => s.model(),
            Shader::Slide(s) => s.model(),
            Shader::Sleep(s) => s.model(),
            Shader::ConsumeTick(s) => s.model(),
            Shader::Ansi256(s) => s.model(),
            Shader::NeverComplete(s) => s.model(),
            Shader::Offscreen(s) => s.model(),
            Shader::Sequential(s) => s.model(),
            Shader::Parallel(s) => s.model(),
            Shader::PingPong(s) => s.model(),
            Shader::Prolong(s) => s.model(),
            Shader::Temporary(s) => s.model(),
            Shader::Repeat(s) => s.model(),
            Shader::Translate(s) => s.model(),
        }
    }

    /// The name of the shader.
    pub fn name(&self) -> (name: &'static str)
        ensures
            name@ == self.model().name(),
        decreases self,
    {
        match self {
            Shader::Dissolve(s) => s.name(),
            Shader::ShaderFn(s) => s.name(),
            Shader::Fade(s) => s.name(),
            Shader::TranslateBuffer(s) => s.name(),
            Shader::Sweep(s) => s.name(),
            Shader::Slide(s) => s.name(),
            Shader::Sleep(s) => s.name(),
            Shader::ConsumeTick(s) => s.name(),
            Shader::Ansi256(s) => s.name(),
            Shader::NeverComplete(s) => s.name(),
            Shader::Offscreen(s) => s.name(),
            Shader::Sequential(s) => s.name(),
            Shader::Parallel(s) => s.name(),
            Shader::PingPong(s) => s.name(),
            Shader::Prolong(s) => s.name(),
            Shader::Temporary(s) => s.name(),
            Shader::Repeat(s) => s.name(),
            Shader::Translate(s) => s.name(),
        }
    }

    /// Advances the shader by `duration` and lets it paint into `buf`, within `area`.
    ///
    /// Returns the time left over on the step that completes the shader.
    pub fn process(&mut self, duration: Duration, buf: &mut Buffer, area: Rect) -> (overflow:
        Option<Duration>)
        ensures
            step_holds(
                old(self).model(),
                duration,
                final(self).model(),
                overflow,
                *old(buf),
                *final(buf),
            ),
            stepped(old(self).model(), duration, final(self).model(), area, *old(buf), *final(buf)),
        decreases old(self).model().depth(), 1int,
    {
        proof {
            reveal(stepped);
        }
        match self {
            Shader::Sleep(s) => s.process(duration),
            Shader::ConsumeTick(s) => s.process(duration),
            Shader::Ansi256(s) => s.process(duration, buf, area),
            Shader::Dissolve(s) => s.process(duration, buf, area),
            Shader::ShaderFn(s) => s.process(duration, buf, area),
            Shader::Fade(s) => s.process(duration, buf, area),
            Shader::TranslateBuffer(s) => s.process(duration, buf, area),
            Shader::Sweep(s) => s.process(duration, buf, area),
            Shader::Slide(s) => s.process(duration, buf, area),
            Shader::NeverComplete(s) => s.process(duration, buf, area),
            Shader::Offscreen(s) => s.process(duration, buf, area),
            Shader::Sequential(s) => s.process(duration, buf, area),
            Shader::Parallel(s) => s.process(duration, buf, area),
            Shader::PingPong(s) => s.process(duration, buf, area),
            Shader::Prolong(s) => s.process(duration, buf, area),
            Shader::Temporary(s) => s.process(duration, buf, area),
            Shader::Repeat(s) => s.process(duration, buf, area),
            Shader::Translate(s) => s.process(duration, buf, area),
        }
    }

    /// Whether the shader is done.
    pub fn done(&self) -> (r: bool)
        ensures
            r == self.model().is_done(),
        decreases self,
    {
        match self {
            Shader::Dissolve(s) => s.done(),
            Shader::ShaderFn(s) => s.done(),
            Shader::Fade(s) => s.done(),
            Shader::TranslateBuffer(s) => s.done(),
            Shader::Sweep(s) => s.done(),
            Shader::Slide(s) => s.done(),
            Shader::Sleep(s) => s.done(),
            Shader::ConsumeTick(s) => s.done(),
            Shader::Ansi256(s) => s.done(),
            Shader::NeverComplete(s) => s.done(),
            Shader::Offscreen(s) => s.done(),
            Shader::Sequential(s) => s.done(),
            Shader::Parallel(s) => s.done(),
            Shader::PingPong(s) => s.done(),
            Shader::Prolong(s) => s.done(),
            Shader::Temporary(s) => s.done(),
            Shader::Repeat(s) => s.done(),
            Shader::Translate(s) => s.done(),
        }
    }

    /// Whether the shader still runs.
    pub fn running(&self) -> (r: bool)
        ensures
            r == !self.model().is_done(),
    {
        !self.done()
    }

    /// Whether the shader takes no time from its start to its end.
    pub fn is_instant(&self) -> (r: bool)
        ensures
            r == self.model().instant(),
        decreases self,
    {
        match self {
            Shader::Dissolve(s) => s.is_instant(),
            Shader::ShaderFn(s) => s.is_instant(),
            Shader::Fade(s) => s.is_instant(),
            Shader::TranslateBuffer(s) => s.is_instant(),
            Shader::Sweep(s) => s.is_instant(),
            Shader::Slide(s) => s.is_instant(),
            Shader::Sleep(s) => s.is_instant(),
            Shader::ConsumeTick(s) => s.is_instant(),
            Shader::Ansi256(s) => s.is_instant(),
            Shader::NeverComplete(s) => s.is_instant(),
            Shader::Offscreen(s) => s.is_instant(),
            Shader::Sequential(s) => s.is_instant(),
            Shader::Parallel(s) => s.is_instant(),
            Shader::PingPong(s) => s.is_instant(),
            Shader::Prolong(s) => s.is_instant(),
            Shader::Temporary(s) => s.is_instant(),
            Shader::Repeat(s) => s.is_instant(),
            Shader::Translate(s) => s.is_instant(),
        }
    }

    /// Puts the shader back to its start.
    pub fn reset(&mut self)
        ensures
            rewinds(old(self).model(), final(self).model()),
        decreases old(self).model().depth(), 1int,
    {
        match self {
            Shader::Dissolve(s) => s.reset(),
            Shader::ShaderFn(s) => s.reset(),
            Shader::Fade(s) => s.reset(),
            Shader::TranslateBuffer(s) => s.reset(),
            Shader::Sweep(s) => s.reset(),
            Shader::Slide(s) => s.reset(),
            Shader::Sleep(s) => s.reset(),
            Shader::ConsumeTick(s) => s.reset(),
            Shader::Ansi256(s) => s.reset(),
            Shader::NeverComplete(s) => s.reset(),
            Shader::Offscreen(s) => s.reset(),
            Shader::Sequential(s) => s.reset(),
            Shader::Parallel(s) => s.reset(),
            Shader::PingPong(s) => s.reset(),
            Shader::Prolong(s) => s.reset(),
            Shader::Temporary(s) => s.reset(),
            Shader::Repeat(s) => s.reset(),
            Shader::Translate(s) => s.reset(),
        }
    }

    /// Turns the shader round, so that it runs from its end to its start.
    pub fn reverse(&mut self)
        ensures
            final(self).model() == old(self).model().reversed(),
            same_timing(old(self).model(), final(self).model()),
            final(self).model().area() == old(self).model().area(),
            final(self).model().filter() == old(self).model().filter(),
        decreases *old(self),
    {
        match self {
            Shader::Dissolve(s) => s.reverse(),
            Shader::ShaderFn(s) => s.reverse(),
            Shader::Fade(s) => s.reverse(),
            Shader::TranslateBuffer(s) => s.reverse(),
            Shader::Sweep(s) => s.reverse(),
            Shader::Slide(s) => s.reverse(),
            Shader::Sleep(s) => s.reverse(),
            Shader::ConsumeTick(s) => s.reverse(),
            Shader::Ansi256(s) => s.reverse(),
            Shader::NeverComplete(s) => s.reverse(),
            Shader::Offscreen(s) => s.reverse(),
            Shader::Sequential(s) => s.reverse(),
            Shader::Parallel(s) => s.reverse(),
            Shader::PingPong(s) => s.reverse(),
            Shader::Prolong(s) => s.reverse(),
            Shader::Temporary(s) => s.reverse(),
            Shader::Repeat(s) => s.reverse(),
            Shader::Translate(s) => s.reverse(),
        }
    }

    /// The area that the shader works in instead of the area that it is given.
    pub fn area(&self) -> (area: Option<Rect>)
        ensures
            area == self.model().area(),
        decreases self,
    {
        match self {
            Shader::Dissolve(s) => s.area(),
            Shader::ShaderFn(s) => s.area(),
            Shader::Fade(s) => s.area(),
            Shader::TranslateBuffer(s) => s.area(),
            Shader::Sweep(s) => s.area(),
            Shader::Slide(s) => s.area(),
            Shader::Sleep(s) => s.area(),
            Shader::ConsumeTick(s) => s.area(),
            Shader::Ansi256(s) => s.area(),
            Shader::NeverComplete(s) => s.area(),
            Shader::Offscreen(s) => s.area(),
            Shader::Sequential(s) => s.area(),
            Shader::Parallel(s) => s.area(),
            Shader::PingPong(s) => s.area(),
            Shader::Prolong(s) => s.area(),
            Shader::Temporary(s) => s.area(),
            Shader::Repeat(s) => s.area(),
            Shader::Translate(s) => s.area(),
        }
    }

    /// Makes the shader work in `area`, whatever area it is given.
    pub fn set_area(&mut self, area: Rect)
        ensures
            final(self).model() == old(self).model().with_area(area),
            same_timing(old(self).model(), final(self).model()),
        decreases *old(self),
    {
        match self {
            Shader::Dissolve(s) => s.set_area(area),
            Shader::ShaderFn(s) => s.set_area(area),
            Shader::Fade(s) => s.set_area(area),
            Shader::TranslateBuffer(s) => s.set_area(area),
            Shader::Sweep(s) => s.set_area(area),
            Shader::Slide(s) => s.set_area(area),
            Shader::Sleep(s) => s.set_area(area),
            Shader::ConsumeTick(s) => s.set_area(area),
            Shader::Ansi256(s) => s.set_area(area),
            Shader::NeverComplete(s) => s.set_area(area),
            Shader::Offscreen(s) => s.set_area(area),
            Shader::Sequential(s) => s.set_area(area),
            Shader::Parallel(s) => s.set_area(area),
            Shader::PingPong(s) => s.set_area(area),
            Shader::Prolong(s) => s.set_area(area),
            Shader::Temporary(s) => s.set_area(area),
            Shader::Repeat(s) => s.set_area(area),
            Shader::Translate(s) => s.set_area(area),
        }
    }

    /// The filter that selects the cells that the shader touches, if it has one.
    pub fn cell_selection(&self) -> (filter: Option<CellFilter>)
        ensures
            filter is Some == self.model().filter() is Some,
            filter matches Some(f) ==> Some(f@) == self.model().filter(),
        decreases self,
    {
        match self {
            Shader::Dissolve(s) => s.cell_selection(),
            Shader::ShaderFn(s) => s.cell_selection(),
            Shader::Fade(s) => s.cell_selection(),
            Shader::TranslateBuffer(s) => s.cell_selection(),
            Shader::Sweep(s) => s.cell_selection(),
            Shader::Slide(s) => s.cell_selection(),
            Shader::Sleep(s) => s.cell_selection(),
            Shader::ConsumeTick(s) => s.cell_selection(),
            Shader::Ansi256(s) => s.cell_selection(),
            Shader::NeverComplete(s) => s.cell_selection(),
            Shader::Offscreen(s) => s.cell_selection(),
            Shader::Sequential(s) => s.cell_selection(),
            Shader::Parallel(s) => s.cell_selection(),
            Shader::PingPong(s) => s.cell_selection(),
            Shader::Prolong(s) => s.cell_selection(),
            Shader::Temporary(s) => s.cell_selection(),
            Shader::Repeat(s) => s.cell_selection(),
            Shader::Translate(s) => s.cell_selection(),
        }
    }

    /// Makes the shader touch the cells that `filter` selects.
    pub fn set_cell_selection(&mut self, filter: CellFilter)
        ensures
            final(self).model() == old(self).model().with_filter(filter@),
            same_timing(old(self).model(), final(self).model()),
        decreases *old(self),
    {
        match self {
            Shader::Dissolve(s) => s.set_cell_selection(filter),
            Shader::ShaderFn(s) => s.set_cell_selection(filter),
            Shader::Fade(s) => s.set_cell_selection(filter),
            Shader::TranslateBuffer(s) => s.set_cell_selection(filter),
            Shader::Sweep(s) => s.set_cell_selection(filter),
            Shader::Slide(s) => s.set_cell_selection(filter),
            Shader::Sleep(s) => s.set_cell_selection(filter),
            Shader::ConsumeTick(s) => s.set_cell_selection(filter),
            Shader::Ansi256(s) => s.set_cell_selection(filter),
            Shader::NeverComplete(s) => s.set_cell_selection(filter),
            Shader::Offscreen(s) => s.set_cell_selection(filter),
            Shader::Sequential(s) => s.set_cell_selection(filter),
            Shader::Parallel(s) => s.set_cell_selection(filter),
            Shader::PingPong(s) => s.set_cell_selection(filter),
            Shader::Prolong(s) => s.set_cell_selection(filter),
            Shader::Temporary(s) => s.set_cell_selection(filter),
            Shader::Repeat(s) => s.set_cell_selection(filter),
            Shader::Translate(s) => s.set_cell_selection(filter),
        }
    }

    /// The time that the shader takes from its start to its end; `None` where it has no
    /// end. A time too long for a duration counts as the longest duration.
    pub fn total_duration(&self) -> (d: Option<Duration>)
        ensures
            millis_of(d) == capped(self.model().duration()),
        decreases self,
    {
        match self {
            Shader::Dissolve(s) => s.total_duration(),
            Shader::ShaderFn(s) => s.total_duration(),
            Shader::Fade(s) => s.total_duration(),
            Shader::TranslateBuffer(s) => s.total_duration(),
            Shader::Sweep(s) => s.total_duration(),
            Shader::Slide(s) => s.total_duration(),
            Shader::Sleep(s) => s.total_duration(),
            Shader::ConsumeTick(s) => s.total_duration(),
            Shader::Ansi256(s) => s.total_duration(),
            Shader::NeverComplete(s) => s.total_duration(),
            Shader::Offscreen(s) => s.total_duration(),
            Shader::Sequential(s) => s.total_duration(),
            Shader::Parallel(s) => s.total_duration(),
            Shader::PingPong(s) => s.total_duration(),
            Shader::Prolong(s) => s.total_duration(),
            Shader::Temporary(s) => s.total_duration(),
            Shader::Repeat(s) => s.total_duration(),
            Shader::Translate(s) => s.total_duration(),
        }
    }

    /// The timer of the shader, if it has one: the timer of a shader that paints cells
    /// or lets time pass; for every other shader that has an end, a timer made for the
    /// time that it takes.
    pub fn timer(&self) -> (timer: Option<EffectTimer>)
        ensures
            timer == self.model().timer(),
    {
        match self {
            Shader::Dissolve(s) => Some(s.timer()),
            Shader::ShaderFn(s) => Some(s.timer()),
            Shader::Fade(s) => Some(s.timer()),
            Shader::TranslateBuffer(s) => Some(s.timer()),
            Shader::Sweep(s) => Some(s.timer()),
            Shader::Slide(s) => Some(s.timer()),
            Shader::Sleep(s) => Some(s.timer()),
            Shader::ConsumeTick(s) => timer_lasting(s.total_duration()),
            Shader::Ansi256(s) => timer_lasting(s.total_duration()),
            Shader::NeverComplete(s) => timer_lasting(s.total_duration()),
            Shader::Offscreen(s) => timer_lasting(s.total_duration()),
            Shader::Sequential(s) => timer_lasting(s.total_duration()),
            Shader::Parallel(s) => timer_lasting(s.total_duration()),
            Shader::PingPong(s) => timer_lasting(s.total_duration()),
            Shader::Prolong(s) => timer_lasting(s.total_duration()),
            Shader::Temporary(s) => timer_lasting(s.total_duration()),
            Shader::Repeat(s) => timer_lasting(s.total_duration()),
            Shader::Translate(s) => timer_lasting(s.total_duration()),
        }
    }

    /// A shader of a kind that does not paint by alpha is in no state that does.
    pub proof fn lemma_paints_by_code(self)
        ensures
            !(self is Dissolve || self is Fade || self is TranslateBuffer || self is Sweep || self
                is Slide) ==> !self.model().paints_by_alpha(),
    {
        match self {
            Shader::ShaderFn(s) => s.lemma_paints_by_code(),
            Shader::Sleep(s) => s.lemma_paints_by_code(),
            Shader::ConsumeTick(s) => s.lemma_paints_by_code(),
            Shader::Ansi256(s) => s.lemma_paints_by_code(),
            Shader::NeverComplete(s) => s.lemma_paints_by_code(),
            Shader::Offscreen(s) => s.lemma_paints_by_code(),
            Shader::Sequential(s) => s.lemma_paints_by_code(),
            Shader::Parallel(s) => s.lemma_paints_by_code(),
            Shader::PingPong(s) => s.lemma_paints_by_code(),
            Shader::Prolong(s) => s.lemma_paints_by_code(),
            Shader::Temporary(s) => s.lemma_paints_by_code(),
            Shader::Repeat(s) => s.lemma_paints_by_code(),
            Shader::Translate(s) => s.lemma_paints_by_code(),
            _ => {},
        }
    }

    /// Paints into `buf` at `alpha`, within `area`: for the shaders that paint by alpha.
    /// Every other shader leaves the buffer as it is; it paints when it takes a step.
    pub fn execute(&self, alpha: u32, area: Rect, buf: &mut Buffer)
        ensures
            same_frame(*old(buf), *final(buf)),
            paints_at(self.model(), clamped_alpha(alpha), area, *old(buf), *final(buf)),
            !self.model().paints_by_alpha() ==> *final(buf) == *old(buf),
    {
        let alpha: u32 = clamp_alpha(alpha);
        proof {
            self.lemma_paints_by_code();
        }
        match self {
            Shader::Dissolve(s) => s.execute(alpha, area, buf),
            Shader::Fade(s) => s.execute(alpha, area, buf),
            Shader::TranslateBuffer(s) => s.execute(alpha, area, buf),
            Shader::Sweep(s) => s.execute(alpha, area, buf),
            Shader::Slide(s) => s.execute(alpha, area, buf),
            _ => {},
        }
    }

    /// The cells of `buf` within `area` that the filter of the shader selects; all of
    /// them where the shader has no filter.
    pub fn cell_iter(&self, buf: &Buffer, area: Rect) -> (iter: CellIterator)
        ensures
            is_selection(
                iter.positions(),
                buffer_cells(*buf),
                buffer_area(*buf),
                area,
                self.model().filter(),
            ),
    {
        let filter = self.cell_selection();
        CellIterator::new(buf, area, filter.as_ref())
    }

    /// Whether the shader is of a kind that keeps a timer for itself.
    pub open spec fn keeps_timer(self) -> bool {
        match self {
            Shader::Dissolve(_) => true,
            Shader::ShaderFn(_) => true,
            Shader::Fade(_) => true,
            Shader::TranslateBuffer(_) => true,
            Shader::Sweep(_) => true,
            Shader::Slide(_) => true,
            Shader::Sleep(_) => true,
            Shader::Temporary(_) => true,
            _ => false,
        }
    }

    /// A shader of a kind that keeps no timer for itself has none.
    pub proof fn lemma_timer_kept(self)
        ensures
            !self.keeps_timer() ==> self.model().own_timer() is None,
    {
        match self {
            Shader::ConsumeTick(s) => s.lemma_keeps_no_timer(),
            Shader::Ansi256(s) => s.lemma_keeps_no_timer(),
            Shader::NeverComplete(s) => s.lemma_keeps_no_timer(),
            Shader::Offscreen(s) => s.lemma_keeps_no_timer(),
            Shader::Sequential(s) => s.lemma_keeps_no_timer(),
            Shader::Parallel(s) => s.lemma_keeps_no_timer(),
            Shader::PingPong(s) => s.lemma_keeps_no_timer(),
            Shader::Prolong(s) => s.lemma_keeps_no_timer(),
            Shader::Repeat(s) => s.lemma_keeps_no_timer(),
            Shader::Translate(s) => s.lemma_keeps_no_timer(),
            _ => {},
        }
    }

    /// The timer that the shader keeps for itself, to be changed in place; `None` where
    /// the shader keeps none.
    pub fn timer_mut(&mut self) -> (timer: Option<&mut EffectTimer>)
        ensures
            match timer {
                Some(t) => old(self).model().own_timer() == Some(*t) && final(self).model() == old(
                    self,
                ).model().with_timer(*final(t)),
                None => old(self).model().own_timer() is None && final(self).model() == old(
                    self,
                ).model(),
            },
    {
        proof {
            old(self).lemma_timer_kept();
        }
        match self {
            Shader::Dissolve(s) => Some(s.timer_mut()),
            Shader::ShaderFn(s) => Some(s.timer_mut()),
            Shader::Fade(s) => Some(s.timer_mut()),
            Shader::TranslateBuffer(s) => Some(s.timer_mut()),
            Shader::Sweep(s) => Some(s.timer_mut()),
            Shader::Slide(s) => Some(s.timer_mut()),
            Shader::Sleep(s) => Some(s.timer_mut()),
            Shader::Temporary(s) => Some(s.timer_mut()),
            _ => None,
        }
    }

    /// The course of the shader and of every shader in its tree, the shader starting at
    /// `offset`.
    pub fn as_effect_span(&self, offset: Duration) -> (span: EffectSpan)
        ensures
            span.model() == self.model().span(offset.millis()),
        decreases self,
    {
        match self {
            Shader::Dissolve(s) => s.as_effect_span(offset),
            Shader::ShaderFn(s) => s.as_effect_span(offset),
            Shader::Fade(s) => s.as_effect_span(offset),
            Shader::TranslateBuffer(s) => s.as_effect_span(offset),
            Shader::Sweep(s) => s.as_effect_span(offset),
            Shader::Slide(s) => s.as_effect_span(offset),
            Shader::Sleep(s) => s.as_effect_span(offset),
            Shader::ConsumeTick(s) => s.as_effect_span(offset),
            Shader::Ansi256(s) => s.as_effect_span(offset),
            Shader::NeverComplete(s) => s.as_effect_span(offset),
            Shader::Offscreen(s) => s.as_effect_span(offset),
            Shader::Sequential(s) => s.as_effect_span(offset),
            Shader::Parallel(s) => s.as_effect_span(offset),
            Shader::PingPong(s) => s.as_effect_span(offset),
            Shader::Prolong(s) => s.as_effect_span(offset),
            Shader::Temporary(s) => s.as_effect_span(offset),
            Shader::Repeat(s) => s.as_effect_span(offset),
            Shader::Translate(s) => s.as_effect_span(offset),
        }
    }

    /// A copy of the shader, with a tree of its own.
    pub fn duplicate(&self) -> (copy: Shader)
        ensures
            copy.model() == self.model(),
        decreases self,
    {
        match self {
            Shader::Sleep(s) => Shader::Sleep(*s),
            Shader::ConsumeTick(s) => Shader::ConsumeTick(*s),
            Shader::Ansi256(s) => Shader::Ansi256(*s),
            Shader::Dissolve(s) => Shader::Dissolve(s.duplicate()),
            Shader::ShaderFn(s) => Shader::ShaderFn(s.duplicate()),
            Shader::Fade(s) => Shader::Fade(s.duplicate()),
            Shader::TranslateBuffer(s) => Shader::TranslateBuffer(s.duplicate()),
            Shader::Sweep(s) => Shader::Sweep(s.duplicate()),
            Shader::Slide(s) => Shader::Slide(s.duplicate()),
            Shader::NeverComplete(s) => Shader::NeverComplete(s.duplicate()),
            Shader::Offscreen(s) => Shader::Offscreen(s.duplicate()),
            Shader::Sequential(s) => Shader::Sequential(s.duplicate()),
            Shader::Parallel(s) => Shader::Parallel(s.duplicate()),
            Shader::PingPong(s) => Shader::PingPong(s.duplicate()),
            Shader::Prolong(s) => Shader::Prolong(s.duplicate()),
            Shader::Temporary(s) => Shader::Temporary(s.duplicate()),
            Shader::Repeat(s) => Shader::Repeat(s.duplicate()),
            Shader::Translate(s) => Shader::Translate(s.duplicate()),
        }
    }
}

/// A linear timer of the time `d`, where there is one.
fn timer_lasting(d: Option<Duration>) -> (timer: Option<EffectTimer>)
    ensures
        timer == lasting(millis_of(d)),
{
    match d {
        Some(d) => {
            proof {
                d.lemma_millis_bounded();
                Duration::lemma_from_millis_spec(d.millis() as u32);
                Duration::lemma_millis_injective(d, Duration::from_millis_spec(d.millis() as u32));
            }
            Some(EffectTimer::new(d, Interpolation::Linear))
        },
        None => None,
    }
}

} // verus!
