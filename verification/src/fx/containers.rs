//! Effects that run a list of effects: one after the other, or side by side.

use vstd::prelude::*;
use crate::shader::{area_for, is_chain, stepped, paints_cells, reached};
use crate::effect_span::{millis_of, EffectSpan};
use crate::shader_view::{capped, lasting};
use crate::effect_span::{longer_capped, plus_capped, span_views, start_of_next};
use crate::shader_view::{
    lemma_left_upto_grows, lemma_list_span, lemma_share_spent, lemma_split_sums, left_upto,
    length_upto, longer, longest_length_upto, share_of, start_after, takes_step,
};
use ratatui::buffer::Buffer;
use ratatui::layout::Rect;
use crate::buffer::buffer_cells;
use crate::duration::Duration;
use crate::effect::{effect_views, Effect};
use crate::cell_filter::CellFilter;
use crate::shader::{reset_to, rewinds, same_frame, step_holds, step_timing};
use crate::shader_view::{
    left_after_step,
    left_from,
    lemma_done_iff_nothing_left,
    lemma_instant_parallel,
    lemma_instant_sequence,
    lemma_deepest_frame,
    lemma_list_changed,
    lemma_list_depth,
    lemma_reversed_sequence,
    lemma_same_timing_lists,
    same_timing,
    lemma_list_unfold,
    lemma_left_from_done_prefix,
    lemma_left_from_frame,
    lemma_left_from_nothing,
    lemma_length_from_frame,
    lemma_longest_after_step,
    lemma_longest_length_frame,
    lemma_longest_upto_nothing,
    longest_upto,
    plus,
    ShaderView,
};

verus! {

/// Runs its effects one after the other.
///
/// The effect at work is the first that is not done. A step of time goes to it; if the
/// step completes it, what is left of the step goes on to the next, within the same
/// call, so that no time is lost. The sequence is done when all its effects are.
pub struct SequentialEffect {
    effects: Vec<Effect>,
}

/// Runs its effects side by side.
///
/// Each step of time goes, whole, to every effect that is not done. The effects that
/// are done are left alone. The whole is done when all its effects are.
pub struct ParallelEffect {
    effects: Vec<Effect>,
}

/// Once the effects before the `i`-th need all of a step, and some of them need
/// something, the step reaches none of the effects from the `i`-th on.
proof fn lemma_sequence_rest(was: Seq<ShaderView>, i: int, delta: nat)
    requires
        0 <= i <= was.len(),
        !(left_upto(was, i) matches Some(t) && t < delta),
        left_upto(was, i) != Some(0nat),
    ensures
        forall|j: int| i <= j < was.len() ==> !#[trigger] takes_step(was, j, delta),
{
    assert forall|j: int| i <= j < was.len() implies !#[trigger] takes_step(was, j, delta) by {
        lemma_share_spent(was, i, j, delta);
        lemma_left_upto_grows(was, i, j);
    }
}

/// A step that has reached the first `i` effects of a sequence, one after the other,
/// and none of the others, has painted as a step of the sequence does.
proof fn lemma_sequence_paints(
    was: Seq<ShaderView>,
    now: Seq<ShaderView>,
    delta: Duration,
    area: Rect,
    chain: Seq<Buffer>,
    i: int,
    from: Buffer,
    to: Buffer,
)
    requires
        was.len() == now.len(),
        0 <= i <= was.len(),
        chain.len() == i + 1,
        chain[0] == from,
        chain[i] == to,
        forall|j: int|
            0 <= j < i ==> reached(was, j, delta, #[trigger] now[j], area, chain[j], chain[j + 1]),
        forall|j: int|
            i <= j < was.len() ==> (#[trigger] now[j]) == was[j] && !takes_step(
                was,
                j,
                delta.millis(),
            ),
    ensures
        stepped(
            ShaderView::Sequential { effects: was },
            delta,
            ShaderView::Sequential { effects: now },
            area,
            from,
            to,
        ),
{
    reveal(stepped);
    let n = was.len() as int;
    let whole = Seq::new(
        (n + 1) as nat,
        |k: int|
            if k <= i {
                chain[k]
            } else {
                to
            },
    );
    assert(is_chain(whole, from, to, n as nat));
    lemma_list_depth(ShaderView::Sequential { effects: was }, was);
    assert forall|j: int| 0 <= j < n implies if takes_step(was, j, delta.millis()) {
        was[j].depth() < (ShaderView::Sequential { effects: was }).depth() && stepped(
            was[j],
            Duration::from_millis_spec(share_of(was, j, delta.millis()) as u32),
            #[trigger] now[j],
            area_for(was[j], area),
            whole[j],
            whole[j + 1],
        )
    } else {
        now[j] == was[j] && whole[j + 1] == whole[j]
    } by {
        if j < i {
            assert(reached(was, j, delta, now[j], area, chain[j], chain[j + 1]));
        }
    }
}

impl SequentialEffect {
    /// The state of the shader.
    pub closed spec fn model(self) -> ShaderView
        decreases self,
    {
        ShaderView::Sequential { effects: effect_views(self.effects@) }
    }

    /// The sequence of `effects`, in their order.
    pub fn new(effects: Vec<Effect>) -> (shader: SequentialEffect)
        ensures
            shader.model() == (ShaderView::Sequential { effects: effect_views(effects@) }),
    {
        SequentialEffect { effects }
    }

    /// The name of the shader.
    pub fn name(&self) -> (name: &'static str)
        ensures
            name@ == self.model().name(),
    {
        "sequential"
    }

    /// Advances the sequence by `duration`.
    ///
    /// Returns the time left over on the step that completes the last effect.
    #[verifier::rlimit(100)]
    pub fn process(&mut self, duration: Duration, buf: &mut Buffer, area: Rect) -> (overflow:
        Option<Duration>)
        ensures
            paints_cells(final(self).model(), area, *old(buf), *final(buf)),
            stepped(
                old(self).model(),
                duration,
                final(self).model(),
                area,
                *old(buf),
                *final(buf),
            ),
            step_holds(
                old(self).model(),
                duration,
                final(self).model(),
                overflow,
                *old(buf),
                *final(buf),
            ),
            old(self).model().is_done() ==> buffer_cells(*final(buf)) == buffer_cells(*old(buf))
                && final(self).model() == old(self).model(),
            final(self).model() matches ShaderView::Sequential { effects: after }
                && old(self).model() matches ShaderView::Sequential { effects: before }
                && after.len() == before.len() && (forall|j: int|
                0 <= j < before.len() && (#[trigger] before[j]).is_done() ==> after[j] == before[j])
                && (old(self).model().timed() ==> forall|j: int|
                0 <= j < before.len() ==> (#[trigger] after[j]).remaining() == left_after_step(
                    before[j].remaining(),
                    share_of(before, j, duration.millis()),
                )),
        decreases old(self).model().depth(), 0int,
    {
        let ghost before = effect_views(self.effects@);
        let ghost all_timed = old(self).model().timed();
        proof {
            lemma_list_unfold(old(self).model(), before);
            lemma_list_depth(old(self).model(), before);
        }
        let n = self.effects.len();
        let mut left = duration;
        let mut fed = false;
        let ghost mut chain: Seq<Buffer> = seq![*buf];
        let mut i: usize = 0;
        while i < n
            invariant
                0 <= i <= n,
                n == self.effects@.len(),
                n == before.len(),
                before == effect_views(old(self).effects@),
                all_timed == old(self).model().timed(),
                all_timed ==> forall|j: int| 0 <= j < n ==> (#[trigger] before[j]).timed(),
                same_frame(*old(buf), *buf),
                left.millis() <= duration.millis(),
                !fed ==> left == duration && buffer_cells(*buf) == buffer_cells(*old(buf))
                    && effect_views(self.effects@) == before,
                forall|j: int|
                    0 <= j < n ==> (#[trigger] effect_views(self.effects@)[j]).timed()
                        == before[j].timed() && effect_views(self.effects@)[j].duration()
                        == before[j].duration() && effect_views(self.effects@)[j].depth()
                        == before[j].depth(),
                forall|j: int| 0 <= j < n ==> (#[trigger] before[j]).depth() < old(
                    self,
                ).model().depth(),
                forall|j: int| i <= j < n ==> #[trigger] self.effects@[j] == old(self).effects@[j],
                forall|j: int|
                    0 <= j < i ==> (#[trigger] effect_views(self.effects@)[j]).is_done(),
                fed ==> exists|j: int| 0 <= j < i && !(#[trigger] before[j]).is_done(),
                chain.len() == i + 1,
                chain[0] == *old(buf),
                chain[i as int] == *buf,
                all_timed && fed ==> duration.millis() > 0,
                all_timed ==> forall|j: int|
                    0 <= j < i ==> reached(
                        before,
                        j,
                        duration,
                        #[trigger] effect_views(self.effects@)[j],
                        area,
                        chain[j],
                        chain[j + 1],
                    ),
                forall|j: int|
                    0 <= j < n && (#[trigger] before[j]).is_done() ==> effect_views(
                        self.effects@,
                    )[j] == before[j],
                all_timed ==> {
                    &&& left_upto(before, i as int) == Some(
                        (duration.millis() - left.millis()) as nat,
                    )
                    &&& forall|j: int|
                        0 <= j < i ==> (#[trigger] effect_views(self.effects@)[j]).remaining()
                            == left_after_step(
                            before[j].remaining(),
                            share_of(before, j, duration.millis()),
                        )
                    &&& left_from(before, 0) == plus(
                        Some((duration.millis() - left.millis()) as nat),
                        left_from(before, i as int),
                    )
                    &&& forall|j: int|
                        0 <= j < i ==> (#[trigger] effect_views(self.effects@)[j]).remaining()
                            == Some(0nat)
                },
            decreases n - i,
        {
            let ghost now = effect_views(self.effects@);
            proof {
                if all_timed {
                    lemma_done_iff_nothing_left(before[i as int]);
                }
                assert(self.effects@[i as int] == old(self).effects@[i as int]);
                assert(now[i as int] == before[i as int]);
                assert(forall|j: int| i <= j < n ==> #[trigger] now[j] == before[j]);
            }
            if self.effects[i].done() {
                proof {
                    let earlier = chain;
                    chain = chain.push(*buf);
                    if all_timed {
                        assert forall|j: int| 0 <= j <= i implies reached(
                            before,
                            j,
                            duration,
                            #[trigger] now[j],
                            area,
                            chain[j],
                            chain[j + 1],
                        ) by {
                            if j < i {
                                assert(chain[j] == earlier[j] && chain[j + 1] == earlier[j + 1]);
                            } else {
                                assert(chain[j] == earlier[j]);
                            }
                        }
                    }
                }
                i = i + 1;
            } else if fed && left.is_zero() {
                proof {
                    lemma_length_from_frame(now, before, 0);
                    lemma_deepest_frame(now, before, n as int);
                    lemma_same_kind(before, now);
                    lemma_list_unfold(ShaderView::Sequential { effects: now }, now);
                    lemma_list_unfold(old(self).model(), before);
                    if all_timed {
                        lemma_left_from_done_prefix(now, 0, i as int);
                        lemma_left_from_frame(now, before, i as int);
                        assert(left_from(before, i as int) == plus(
                            before[i as int].remaining(),
                            left_from(before, i as int + 1),
                        ));
                        assert forall|j: int| i <= j < n implies (#[trigger] now[j]).remaining()
                            == left_after_step(
                            before[j].remaining(),
                            share_of(before, j, duration.millis()),
                        ) by {
                            lemma_share_spent(before, i as int, j, duration.millis());
                        }
                        lemma_sequence_rest(before, i as int, duration.millis());
                        lemma_sequence_paints(
                            before,
                            now,
                            duration,
                            area,
                            chain,
                            i as int,
                            *old(buf),
                            *buf,
                        );
                    } else {
                        assert(stepped(
                            old(self).model(),
                            duration,
                            self.model(),
                            area,
                            *old(buf),
                            *buf,
                        )) by {
                            reveal(stepped);
                        }
                    }
                }
                return None;
            } else {
                let ghost cells = self.effects@;
                let r = self.effects[i].process(left, buf, area);
                proof {
                    let after = effect_views(self.effects@);
                    assert(after[i as int] == self.effects@[i as int].model());
                    assert forall|j: int| 0 <= j < n && j != i implies #[trigger] after[j]
                        == now[j] by {
                        assert(self.effects@[j] == cells[j]);
                    }
                    lemma_length_from_frame(after, before, 0);
                    lemma_deepest_frame(after, before, n as int);
                    lemma_same_kind(before, after);
                    lemma_list_unfold(ShaderView::Sequential { effects: after }, after);
                    lemma_list_unfold(old(self).model(), before);
                    assert(!before[i as int].is_done());
                    if all_timed {
                        lemma_left_from_done_prefix(after, 0, i as int);
                        lemma_left_from_frame(after, before, i as int + 1);
                        lemma_done_iff_nothing_left(after[i as int]);
                        assert(left_from(before, i as int) == plus(
                            before[i as int].remaining(),
                            left_from(before, i as int + 1),
                        ));
                        assert(left_from(after, i as int) == plus(
                            after[i as int].remaining(),
                            left_from(after, i as int + 1),
                        ));
                        assert(left_upto(before, i as int + 1) == plus(
                            left_upto(before, i as int),
                            before[i as int].remaining(),
                        ));
                        assert(share_of(before, i as int, duration.millis()) == left.millis());
                        left.lemma_millis_bounded();
                        Duration::lemma_from_millis_spec(left.millis() as u32);
                        Duration::lemma_millis_injective(
                            left,
                            Duration::from_millis_spec(left.millis() as u32),
                        );
                        assert(takes_step(before, i as int, duration.millis()));
                    }
                    let earlier = chain;
                    chain = chain.push(*buf);
                    if all_timed {
                        assert forall|j: int| 0 <= j <= i implies reached(
                            before,
                            j,
                            duration,
                            #[trigger] after[j],
                            area,
                            chain[j],
                            chain[j + 1],
                        ) by {
                            if j < i {
                                assert(after[j] == now[j]);
                                assert(chain[j] == earlier[j] && chain[j + 1] == earlier[j + 1]);
                            } else {
                                assert(chain[j] == earlier[j]);
                            }
                        }
                        if r is None {
                            assert forall|j: int| i < j < n implies (#[trigger] after[j]).remaining()
                                == left_after_step(
                                before[j].remaining(),
                                share_of(before, j, duration.millis()),
                            ) by {
                                lemma_share_spent(before, i as int + 1, j, duration.millis());
                            }
                            lemma_sequence_rest(before, i as int + 1, duration.millis());
                            lemma_sequence_paints(
                                before,
                                after,
                                duration,
                                area,
                                chain,
                                i as int + 1,
                                *old(buf),
                                *buf,
                            );
                        }
                    } else if r is None {
                        assert(stepped(
                            old(self).model(),
                            duration,
                            self.model(),
                            area,
                            *old(buf),
                            *buf,
                        )) by {
                            reveal(stepped);
                        }
                    }
                }
                match r {
                    None => {
                        return None;
                    },
                    Some(o) => {
                        left = o;
                        fed = true;
                        i = i + 1;
                    },
                }
            }
        }
        proof {
            let after = effect_views(self.effects@);
            lemma_length_from_frame(after, before, 0);
            lemma_deepest_frame(after, before, n as int);
            lemma_same_kind(before, after);
            lemma_list_unfold(ShaderView::Sequential { effects: after }, after);
            lemma_list_unfold(old(self).model(), before);
            if all_timed {
                lemma_left_from_nothing(after, 0);
                lemma_left_from_nothing(before, 0);
                assert forall|j: int| 0 <= j < n implies ((#[trigger] before[j]).is_done()
                    <==> before[j].remaining() == Some(0nat)) by {
                    lemma_done_iff_nothing_left(before[j]);
                }
                lemma_sequence_paints(
                    before,
                    after,
                    duration,
                    area,
                    chain,
                    n as int,
                    *old(buf),
                    *buf,
                );
            } else {
                assert(stepped(old(self).model(), duration, self.model(), area, *old(buf), *buf)) by {
                    reveal(stepped);
                }
            }
        }
        if fed {
            Some(left)
        } else {
            None
        }
    }

    /// Whether every effect of the sequence is done.
    pub fn done(&self) -> (r: bool)
        ensures
            r == self.model().is_done(),
        decreases self,
    {
        all_done(&self.effects)
    }

    /// Whether none of the effects takes any time.
    pub fn is_instant(&self) -> (r: bool)
        ensures
            r == self.model().instant(),
        decreases self,
    {
        let ghost views = effect_views(self.effects@);
        proof {
            lemma_instant_sequence(views, 0);
            lemma_instant_parallel(views, views.len() as int);
        }
        let mut i: usize = 0;
        while i < self.effects.len()
            invariant
                0 <= i <= self.effects@.len(),
                views == effect_views(self.effects@),
                forall|j: int| 0 <= j < i ==> (#[trigger] views[j]).duration() == Some(0nat),
            decreases self.effects@.len() - i,
        {
            if !self.effects[i].is_instant() {
                proof {
                    assert(views[i as int].duration() != Some(0nat));
                    lemma_instant_sequence(views, 0);
                    lemma_instant_parallel(views, views.len() as int);
                }
                return false;
            }
            i = i + 1;
        }
        proof {
            lemma_instant_sequence(views, 0);
            lemma_instant_parallel(views, views.len() as int);
        }
        true
    }

    /// Puts every effect back to its start.
    pub fn reset(&mut self)
        ensures
            rewinds(old(self).model(), final(self).model()),
        decreases old(self).model().depth(), 0int,
    {
        proof {
            reveal(reset_to);
        }
        let ghost before = effect_views(self.effects@);
        proof {
            lemma_list_depth(old(self).model(), before);
        }
        let n = self.effects.len();
        let mut i: usize = 0;
        while i < n
            invariant
                0 <= i <= n,
                n == self.effects@.len(),
                n == before.len(),
                before == effect_views(old(self).effects@),
                forall|j: int| i <= j < n ==> #[trigger] self.effects@[j] == old(self).effects@[j],
                forall|j: int|
                    0 <= j < i ==> rewinds(before[j], #[trigger] effect_views(self.effects@)[j]),
                forall|j: int| 0 <= j < n ==> (#[trigger] before[j]).depth() < old(
                    self,
                ).model().depth(),
            decreases n - i,
        {
            let ghost cells = self.effects@;
            proof {
                assert(self.effects@[i as int] == old(self).effects@[i as int]);
                assert(effect_views(self.effects@)[i as int] == before[i as int]);
            }
            self.effects[i].reset();
            proof {
                let after = effect_views(self.effects@);
                assert forall|j: int| 0 <= j < i implies rewinds(before[j], #[trigger] after[j]) by {
                    assert(self.effects@[j] == cells[j]);
                    assert(after[j] == effect_views(cells)[j]);
                }
            }
            i = i + 1;
        }
        proof {
            lemma_rewound_lists(before, effect_views(self.effects@));
        }
    }

    /// The effects work in areas of their own: the list has none.
    pub fn area(&self) -> (area: Option<Rect>)
        ensures
            area == self.model().area(),
    {
        None
    }

    /// Makes every effect work in `area`.
    pub fn set_area(&mut self, area: Rect)
        ensures
            final(self).model() == old(self).model().with_area(area),
            same_timing(old(self).model(), final(self).model()),
        decreases *old(self),
    {
        let ghost before = effect_views(self.effects@);
        let n = self.effects.len();
        let mut i: usize = 0;
        while i < n
            invariant
                0 <= i <= n,
                n == self.effects@.len(),
                n == before.len(),
                before == effect_views(old(self).effects@),
                forall|j: int| i <= j < n ==> #[trigger] self.effects@[j] == old(self).effects@[j],
                forall|j: int|
                    0 <= j < i ==> #[trigger] effect_views(self.effects@)[j] == before[j].with_area(
                        area,
                    ) && same_timing(before[j], effect_views(self.effects@)[j]),
            decreases n - i,
        {
            let ghost cells = self.effects@;
            proof {
                assert(self.effects@[i as int] == old(self).effects@[i as int]);
            }
            self.effects[i].set_area(area);
            proof {
                let after = effect_views(self.effects@);
                assert forall|j: int| 0 <= j < i implies #[trigger] after[j] == before[j].with_area(
                    area,
                ) && same_timing(before[j], after[j]) by {
                    assert(self.effects@[j] == cells[j]);
                    assert(after[j] == effect_views(cells)[j]);
                }
            }
            i = i + 1;
        }
        proof {
            let after = effect_views(self.effects@);
            lemma_same_timing_lists(before, after);
            lemma_list_changed(before, after, area, crate::cell_filter::FilterView::All);
        }
    }

    /// The effects have filters of their own: the list has none.
    pub fn cell_selection(&self) -> (filter: Option<CellFilter>)
        ensures
            filter is None,
            self.model().filter() is None,
    {
        None
    }

    /// Makes every effect touch the cells that `filter` selects.
    pub fn set_cell_selection(&mut self, filter: CellFilter)
        ensures
            final(self).model() == old(self).model().with_filter(filter@),
            same_timing(old(self).model(), final(self).model()),
        decreases *old(self),
    {
        let ghost before = effect_views(self.effects@);
        let n = self.effects.len();
        let mut i: usize = 0;
        while i < n
            invariant
                0 <= i <= n,
                n == self.effects@.len(),
                n == before.len(),
                before == effect_views(old(self).effects@),
                forall|j: int| i <= j < n ==> #[trigger] self.effects@[j] == old(self).effects@[j],
                forall|j: int|
                    0 <= j < i ==> #[trigger] effect_views(self.effects@)[j]
                        == before[j].with_filter(filter@) && same_timing(
                        before[j],
                        effect_views(self.effects@)[j],
                    ),
            decreases n - i,
        {
            let ghost cells = self.effects@;
            proof {
                assert(self.effects@[i as int] == old(self).effects@[i as int]);
            }
            self.effects[i].set_cell_selection(filter.duplicate());
            proof {
                let after = effect_views(self.effects@);
                assert forall|j: int| 0 <= j < i implies #[trigger] after[j]
                    == before[j].with_filter(filter@) && same_timing(before[j], after[j]) by {
                    assert(self.effects@[j] == cells[j]);
                    assert(after[j] == effect_views(cells)[j]);
                }
            }
            i = i + 1;
        }
        proof {
            let after = effect_views(self.effects@);
            lemma_same_timing_lists(before, after);
            lemma_list_changed(before, after, Rect { x: 0, y: 0, width: 0, height: 0 }, filter@);
        }
    }

    /// A copy of the shader, with copies of its effects.
    pub fn duplicate(&self) -> (copy: Self)
        ensures
            copy.model() == self.model(),
        decreases self,
    {
        let mut effects: Vec<Effect> = Vec::new();
        let mut i: usize = 0;
        while i < self.effects.len()
            invariant
                0 <= i <= self.effects@.len(),
                effects@.len() == i,
                forall|j: int|
                    0 <= j < i ==> (#[trigger] effects@[j]).model() == self.effects@[j].model(),
            decreases self.effects@.len() - i,
        {
            effects.push(self.effects[i].duplicate());
            i = i + 1;
        }
        assert(effect_views(effects@) =~= effect_views(self.effects@));
        Self { effects }
    }

    /// Turns the sequence round: its effects run in the opposite order, each turned round.
    pub fn reverse(&mut self)
        ensures
            final(self).model() == old(self).model().reversed(),
            same_timing(old(self).model(), final(self).model()),
            final(self).model().area() == old(self).model().area(),
            final(self).model().filter() == old(self).model().filter(),
        decreases *old(self),
    {
        let ghost before = effect_views(self.effects@);
        let n = self.effects.len();
        let mut turned: Vec<Effect> = Vec::new();
        while self.effects.len() > 0
            invariant
                n == before.len(),
                before == effect_views(old(self).effects@),
                self.effects@.len() + turned@.len() == n,
                forall|j: int|
                    0 <= j < self.effects@.len() ==> #[trigger] self.effects@[j] == old(
                        self,
                    ).effects@[j],
                forall|j: int|
                    0 <= j < turned@.len() ==> (#[trigger] turned@[j]).model() == before[n - 1
                        - j].reversed() && same_timing(before[n - 1 - j], turned@[j].model()),
            decreases self.effects@.len(),
        {
            let ghost k = self.effects@.len() - 1;
            proof {
                assert(self.effects@[k] == old(self).effects@[k]);
            }
            if let Some(last) = self.effects.pop() {
                let mut effect = last;
                effect.reverse();
                turned.push(effect);
            }
        }
        self.effects = turned;
        proof {
            let after = effect_views(self.effects@);
            assert forall|j: int| 0 <= j < n implies same_timing(
                #[trigger] after[j],
                before[n - 1 - j],
            ) by {
                assert(after[j] == self.effects@[j].model());
            }
            lemma_reversed_sequence(before, after);
            assert forall|j: int| 0 <= j < n implies #[trigger] after[j] == before[n - 1
                - j].reversed() by {
                assert(after[j] == self.effects@[j].model());
            }
            lemma_list_changed(
                before,
                after,
                Rect { x: 0, y: 0, width: 0, height: 0 },
                crate::cell_filter::FilterView::All,
            );
        }
    }
}

/// Lists whose effects are timed alike make timed shaders alike.
proof fn lemma_same_kind(a: Seq<ShaderView>, b: Seq<ShaderView>)
    requires
        a.len() == b.len(),
        forall|j: int| 0 <= j < a.len() ==> (#[trigger] b[j]).timed() == a[j].timed(),
    ensures
        (ShaderView::Sequential { effects: a }).timed() == (ShaderView::Sequential {
            effects: b,
        }).timed(),
        (ShaderView::Parallel { effects: a }).timed() == (ShaderView::Parallel {
            effects: b,
        }).timed(),
{
    lemma_list_unfold(ShaderView::Sequential { effects: a }, a);
    lemma_list_unfold(ShaderView::Sequential { effects: b }, b);
    lemma_list_unfold(ShaderView::Parallel { effects: a }, a);
    lemma_list_unfold(ShaderView::Parallel { effects: b }, b);
    if forall|i: int| 0 <= i < a.len() ==> (#[trigger] a[i]).timed() {
        assert forall|j: int| 0 <= j < b.len() implies (#[trigger] b[j]).timed() by {
            assert(a[j].timed());
        }
    }
    if forall|i: int| 0 <= i < b.len() ==> (#[trigger] b[i]).timed() {
        assert forall|j: int| 0 <= j < a.len() implies (#[trigger] a[j]).timed() by {
            assert(b[j].timed());
        }
    }
}

/// Lists whose effects have been put back to their start make shaders that have been.
proof fn lemma_rewound_lists(a: Seq<ShaderView>, b: Seq<ShaderView>)
    requires
        a.len() == b.len(),
        forall|j: int| 0 <= j < a.len() ==> rewinds(a[j], #[trigger] b[j]),
    ensures
        rewinds(ShaderView::Sequential { effects: a }, ShaderView::Sequential { effects: b }),
        rewinds(ShaderView::Parallel { effects: a }, ShaderView::Parallel { effects: b }),
{
    let n = a.len() as int;
    assert forall|j: int| 0 <= j < n implies (#[trigger] b[j]).timed() == a[j].timed() by {
        assert(rewinds(a[j], b[j]));
    }
    lemma_same_kind(a, b);
    assert forall|j: int| 0 <= j < n implies (#[trigger] b[j]).duration() == a[j].duration() by {
        assert(rewinds(a[j], b[j]));
    }
    assert forall|j: int| 0 <= j < n implies (#[trigger] b[j]).depth() == a[j].depth() by {
        assert(rewinds(a[j], b[j]));
    }
    assert forall|j: int| 0 <= j < n implies (#[trigger] b[j]).remaining() == b[j].duration() by {
        assert(rewinds(a[j], b[j]));
    }
    lemma_deepest_frame(b, a, n);
    lemma_length_from_frame(b, a, 0);
    lemma_longest_length_frame(b, a, n);
    lemma_left_is_length(b, 0);
    lemma_longest_left_is_length(b, n);
    lemma_list_unfold(ShaderView::Sequential { effects: b }, b);
    lemma_list_unfold(ShaderView::Parallel { effects: b }, b);
    lemma_instant_sequence(b, 0);
    lemma_instant_parallel(b, n);
    if forall|i: int| 0 <= i < n ==> (#[trigger] b[i]).is_done() {
        assert forall|j: int| 0 <= j < n implies (#[trigger] b[j]).duration() == Some(0nat) by {
            assert(rewinds(a[j], b[j]));
        }
    }
    assert forall|j: int| 0 <= j < n implies reset_to(a[j], #[trigger] b[j]) by {
        assert(rewinds(a[j], b[j]));
    }
    assert(reset_to(ShaderView::Sequential { effects: a }, ShaderView::Sequential { effects: b }))
        by {
        reveal(reset_to);
    }
    assert(reset_to(ShaderView::Parallel { effects: a }, ShaderView::Parallel { effects: b })) by {
        reveal(reset_to);
    }
}

/// Where each effect has all of its time left, the sequence has.
proof fn lemma_left_is_length(b: Seq<ShaderView>, i: int)
    requires
        0 <= i <= b.len(),
        forall|j: int| 0 <= j < b.len() ==> (#[trigger] b[j]).remaining() == b[j].duration(),
    ensures
        left_from(b, i) == crate::shader_view::length_from(b, i),
    decreases b.len() - i,
{
    if i < b.len() {
        lemma_left_is_length(b, i + 1);
    }
}

/// Where each effect has all of its time left, the longest that one has left is the
/// longest that one takes.
proof fn lemma_longest_left_is_length(b: Seq<ShaderView>, i: int)
    requires
        0 <= i <= b.len(),
        forall|j: int| 0 <= j < b.len() ==> (#[trigger] b[j]).remaining() == b[j].duration(),
    ensures
        longest_upto(b, i) == crate::shader_view::longest_length_upto(b, i),
    decreases i,
{
    if i > 0 {
        lemma_longest_left_is_length(b, i - 1);
    }
}

/// Whether every effect of the list is done.
fn all_done(effects: &Vec<Effect>) -> (r: bool)
    ensures
        r == (ShaderView::Sequential { effects: effect_views(effects@) }).is_done(),
        r == (ShaderView::Parallel { effects: effect_views(effects@) }).is_done(),
    decreases effects,
{
    proof {
        let v = effect_views(effects@);
        lemma_list_unfold(ShaderView::Sequential { effects: v }, v);
        lemma_list_unfold(ShaderView::Parallel { effects: v }, v);
    }
    let mut i: usize = 0;
    while i < effects.len()
        invariant
            0 <= i <= effects@.len(),
            forall|j: int| 0 <= j < i ==> (#[trigger] effect_views(effects@)[j]).is_done(),
            (forall|i: int|
                0 <= i < effects@.len() ==> (#[trigger] effect_views(effects@)[i]).is_done())
                ==> (ShaderView::Sequential { effects: effect_views(effects@) }).is_done()
                && (ShaderView::Parallel { effects: effect_views(effects@) }).is_done(),
        decreases effects@.len() - i,
    {
        if !effects[i].done() {
            proof {
                let v = effect_views(effects@);
                assert(!v[i as int].is_done());
                lemma_list_unfold(ShaderView::Sequential { effects: v }, v);
                lemma_list_unfold(ShaderView::Parallel { effects: v }, v);
            }
            return false;
        }
        i = i + 1;
    }
    true
}

/// The shorter of two spans of time.
fn shorter_of(a: Duration, b: Duration) -> (d: Duration)
    ensures
        d == if a.millis() <= b.millis() { a } else { b },
{
    if a.as_millis() <= b.as_millis() {
        a
    } else {
        b
    }
}

impl ParallelEffect {
    /// The state of the shader.
    pub closed spec fn model(self) -> ShaderView
        decreases self,
    {
        ShaderView::Parallel { effects: effect_views(self.effects@) }
    }

    /// The `effects`, side by side.
    pub fn new(effects: Vec<Effect>) -> (shader: ParallelEffect)
        ensures
            shader.model() == (ShaderView::Parallel { effects: effect_views(effects@) }),
    {
        ParallelEffect { effects }
    }

    /// The name of the shader.
    pub fn name(&self) -> (name: &'static str)
        ensures
            name@ == self.model().name(),
    {
        "parallel"
    }

    /// Advances every effect that is not done by `duration`.
    ///
    /// Returns, on the step that completes the last of them, the least time that any of
    /// the effects completed by this step left over. An effect that was done before the
    /// step is not touched: it keeps its state and paints nothing.
    pub fn process(&mut self, duration: Duration, buf: &mut Buffer, area: Rect) -> (overflow:
        Option<Duration>)
        ensures
            paints_cells(final(self).model(), area, *old(buf), *final(buf)),
            stepped(
                old(self).model(),
                duration,
                final(self).model(),
                area,
                *old(buf),
                *final(buf),
            ),
            step_holds(
                old(self).model(),
                duration,
                final(self).model(),
                overflow,
                *old(buf),
                *final(buf),
            ),
            final(self).model() matches ShaderView::Parallel { effects: after }
                && old(self).model() matches ShaderView::Parallel { effects: before }
                && after.len() == before.len() && (forall|j: int|
                0 <= j < before.len() && (#[trigger] before[j]).is_done() ==> after[j] == before[j])
                && (old(self).model().timed() ==> forall|j: int|
                0 <= j < before.len() ==> (#[trigger] after[j]).remaining() == left_after_step(
                    before[j].remaining(),
                    duration.millis(),
                )),
            old(self).model().is_done() ==> buffer_cells(*final(buf)) == buffer_cells(*old(buf)),
        decreases old(self).model().depth(), 0int,
    {
        let ghost before = effect_views(self.effects@);
        let ghost all_timed = old(self).model().timed();
        proof {
            lemma_list_unfold(old(self).model(), before);
            lemma_list_depth(old(self).model(), before);
        }
        let n = self.effects.len();
        let mut least: Option<Duration> = None;
        let mut stalled = false;
        let ghost mut chain: Seq<Buffer> = seq![*buf];
        let mut i: usize = 0;
        while i < n
            invariant
                0 <= i <= n,
                chain.len() == i + 1,
                chain[0] == *old(buf),
                chain[i as int] == *buf,
                forall|j: int|
                    0 <= j < i ==> if before[j].is_done() {
                        (#[trigger] effect_views(self.effects@)[j]) == before[j] && chain[j + 1]
                            == chain[j]
                    } else {
                        stepped(
                            before[j],
                            duration,
                            effect_views(self.effects@)[j],
                            area_for(before[j], area),
                            chain[j],
                            chain[j + 1],
                        )
                    },
                n == self.effects@.len(),
                n == before.len(),
                before == effect_views(old(self).effects@),
                all_timed ==> forall|j: int| 0 <= j < n ==> (#[trigger] before[j]).timed(),
                same_frame(*old(buf), *buf),
                forall|j: int|
                    0 <= j < n ==> (#[trigger] effect_views(self.effects@)[j]).timed()
                        == before[j].timed() && effect_views(self.effects@)[j].duration()
                        == before[j].duration() && effect_views(self.effects@)[j].depth()
                        == before[j].depth(),
                forall|j: int| 0 <= j < n ==> (#[trigger] before[j]).depth() < old(
                    self,
                ).model().depth(),
                forall|j: int| i <= j < n ==> #[trigger] self.effects@[j] == old(self).effects@[j],
                forall|j: int|
                    0 <= j < n && (#[trigger] before[j]).is_done() ==> effect_views(
                        self.effects@,
                    )[j] == before[j],
                (forall|j: int| 0 <= j < i ==> (#[trigger] before[j]).is_done()) ==> least is None
                    && !stalled && buffer_cells(*buf) == buffer_cells(*old(buf)),
                !stalled ==> forall|j: int|
                    0 <= j < i ==> (#[trigger] effect_views(self.effects@)[j]).is_done(),
                least matches Some(o) ==> o.millis() <= duration.millis(),
                least is Some ==> exists|j: int| 0 <= j < i && !(#[trigger] before[j]).is_done(),
                all_timed ==> {
                    &&& forall|j: int|
                        0 <= j < i ==> (#[trigger] effect_views(self.effects@)[j]).remaining()
                            == left_after_step(before[j].remaining(), duration.millis())
                    &&& stalled <==> !(longest_upto(before, i as int) matches Some(m) && m
                        <= duration.millis())
                    &&& !stalled ==> (longest_upto(before, i as int) matches Some(m) && (least
                        is Some <==> m > 0) && (least matches Some(o) ==> o.millis()
                        == duration.millis() - m))
                },
            decreases n - i,
        {
            let ghost now = effect_views(self.effects@);
            proof {
                if all_timed {
                    lemma_done_iff_nothing_left(before[i as int]);
                }
                assert(self.effects@[i as int] == old(self).effects@[i as int]);
                assert(now[i as int] == before[i as int]);
            }
            if !self.effects[i].done() {
                let ghost cells = self.effects@;
                let r = self.effects[i].process(duration, buf, area);
                proof {
                    let after = effect_views(self.effects@);
                    assert(after[i as int] == self.effects@[i as int].model());
                    assert forall|j: int| 0 <= j < n && j != i implies #[trigger] after[j]
                        == now[j] by {
                        assert(self.effects@[j] == cells[j]);
                    }
                }
                match r {
                    None => {
                        stalled = true;
                    },
                    Some(o) => {
                        least = match least {
                            None => Some(o),
                            Some(a) => Some(shorter_of(a, o)),
                        };
                    },
                }
            }
            proof {
                let after = effect_views(self.effects@);
                let earlier = chain;
                chain = chain.push(*buf);
                assert forall|j: int| 0 <= j <= i implies if before[j].is_done() {
                    (#[trigger] after[j]) == before[j] && chain[j + 1] == chain[j]
                } else {
                    stepped(
                        before[j],
                        duration,
                        after[j],
                        area_for(before[j], area),
                        chain[j],
                        chain[j + 1],
                    )
                } by {
                    if j < i {
                        assert(after[j] == now[j]);
                        assert(chain[j] == earlier[j] && chain[j + 1] == earlier[j + 1]);
                    } else {
                        assert(chain[j] == earlier[j]);
                    }
                }
            }
            i = i + 1;
        }
        proof {
            let after = effect_views(self.effects@);
            assert(stepped(old(self).model(), duration, self.model(), area, *old(buf), *buf)) by {
                reveal(stepped);
                assert(is_chain(chain, *old(buf), *buf, n as nat));
            }
            lemma_longest_length_frame(after, before, n as int);
            lemma_deepest_frame(after, before, n as int);
            lemma_same_kind(before, after);
            lemma_list_unfold(ShaderView::Parallel { effects: after }, after);
            if all_timed {
                lemma_longest_after_step(before, after, duration.millis(), n as int);
                lemma_longest_upto_nothing(before, n as int);
                assert forall|j: int| 0 <= j < n implies ((#[trigger] before[j]).is_done()
                    <==> before[j].remaining() == Some(0nat)) by {
                    lemma_done_iff_nothing_left(before[j]);
                }
            }
        }
        if stalled {
            None
        } else {
            least
        }
    }

    /// Whether every one of the effects is done.
    pub fn done(&self) -> (r: bool)
        ensures
            r == self.model().is_done(),
        decreases self,
    {
        all_done(&self.effects)
    }

    /// Whether none of the effects takes any time.
    pub fn is_instant(&self) -> (r: bool)
        ensures
            r == self.model().instant(),
        decreases self,
    {
        let ghost views = effect_views(self.effects@);
        proof {
            lemma_instant_sequence(views, 0);
            lemma_instant_parallel(views, views.len() as int);
        }
        let mut i: usize = 0;
        while i < self.effects.len()
            invariant
                0 <= i <= self.effects@.len(),
                views == effect_views(self.effects@),
                forall|j: int| 0 <= j < i ==> (#[trigger] views[j]).duration() == Some(0nat),
            decreases self.effects@.len() - i,
        {
            if !self.effects[i].is_instant() {
                proof {
                    assert(views[i as int].duration() != Some(0nat));
                    lemma_instant_sequence(views, 0);
                    lemma_instant_parallel(views, views.len() as int);
                }
                return false;
            }
            i = i + 1;
        }
        proof {
            lemma_instant_sequence(views, 0);
            lemma_instant_parallel(views, views.len() as int);
        }
        true
    }

    /// Puts every effect back to its start.
    pub fn reset(&mut self)
        ensures
            rewinds(old(self).model(), final(self).model()),
        decreases old(self).model().depth(), 0int,
    {
        proof {
            reveal(reset_to);
        }
        let ghost before = effect_views(self.effects@);
        proof {
            lemma_list_depth(old(self).model(), before);
        }
        let n = self.effects.len();
        let mut i: usize = 0;
        while i < n
            invariant
                0 <= i <= n,
                n == self.effects@.len(),
                n == before.len(),
                before == effect_views(old(self).effects@),
                forall|j: int| i <= j < n ==> #[trigger] self.effects@[j] == old(self).effects@[j],
                forall|j: int|
                    0 <= j < i ==> rewinds(before[j], #[trigger] effect_views(self.effects@)[j]),
                forall|j: int| 0 <= j < n ==> (#[trigger] before[j]).depth() < old(
                    self,
                ).model().depth(),
            decreases n - i,
        {
            let ghost cells = self.effects@;
            proof {
                assert(self.effects@[i as int] == old(self).effects@[i as int]);
                assert(effect_views(self.effects@)[i as int] == before[i as int]);
            }
            self.effects[i].reset();
            proof {
                let after = effect_views(self.effects@);
                assert forall|j: int| 0 <= j < i implies rewinds(before[j], #[trigger] after[j]) by {
                    assert(self.effects@[j] == cells[j]);
                    assert(after[j] == effect_views(cells)[j]);
                }
            }
            i = i + 1;
        }
        proof {
            lemma_rewound_lists(before, effect_views(self.effects@));
        }
    }

    /// The effects work in areas of their own: the list has none.
    pub fn area(&self) -> (area: Option<Rect>)
        ensures
            area == self.model().area(),
    {
        None
    }

    /// Makes every effect work in `area`.
    pub fn set_area(&mut self, area: Rect)
        ensures
            final(self).model() == old(self).model().with_area(area),
            same_timing(old(self).model(), final(self).model()),
        decreases *old(self),
    {
        let ghost before = effect_views(self.effects@);
        let n = self.effects.len();
        let mut i: usize = 0;
        while i < n
            invariant
                0 <= i <= n,
                n == self.effects@.len(),
                n == before.len(),
                before == effect_views(old(self).effects@),
                forall|j: int| i <= j < n ==> #[trigger] self.effects@[j] == old(self).effects@[j],
                forall|j: int|
                    0 <= j < i ==> #[trigger] effect_views(self.effects@)[j] == before[j].with_area(
                        area,
                    ) && same_timing(before[j], effect_views(self.effects@)[j]),
            decreases n - i,
        {
            let ghost cells = self.effects@;
            proof {
                assert(self.effects@[i as int] == old(self).effects@[i as int]);
            }
            self.effects[i].set_area(area);
            proof {
                let after = effect_views(self.effects@);
                assert forall|j: int| 0 <= j < i implies #[trigger] after[j] == before[j].with_area(
                    area,
                ) && same_timing(before[j], after[j]) by {
                    assert(self.effects@[j] == cells[j]);
                    assert(after[j] == effect_views(cells)[j]);
                }
            }
            i = i + 1;
        }
        proof {
            let after = effect_views(self.effects@);
            lemma_same_timing_lists(before, after);
            lemma_list_changed(before, after, area, crate::cell_filter::FilterView::All);
        }
    }

    /// The effects have filters of their own: the list has none.
    pub fn cell_selection(&self) -> (filter: Option<CellFilter>)
        ensures
            filter is None,
            self.model().filter() is None,
    {
        None
    }

    /// Makes every effect touch the cells that `filter` selects.
    pub fn set_cell_selection(&mut self, filter: CellFilter)
        ensures
            final(self).model() == old(self).model().with_filter(filter@),
            same_timing(old(self).model(), final(self).model()),
        decreases *old(self),
    {
        let ghost before = effect_views(self.effects@);
        let n = self.effects.len();
        let mut i: usize = 0;
        while i < n
            invariant
                0 <= i <= n,
                n == self.effects@.len(),
                n == before.len(),
                before == effect_views(old(self).effects@),
                forall|j: int| i <= j < n ==> #[trigger] self.effects@[j] == old(self).effects@[j],
                forall|j: int|
                    0 <= j < i ==> #[trigger] effect_views(self.effects@)[j]
                        == before[j].with_filter(filter@) && same_timing(
                        before[j],
                        effect_views(self.effects@)[j],
                    ),
            decreases n - i,
        {
            let ghost cells = self.effects@;
            proof {
                assert(self.effects@[i as int] == old(self).effects@[i as int]);
            }
            self.effects[i].set_cell_selection(filter.duplicate());
            proof {
                let after = effect_views(self.effects@);
                assert forall|j: int| 0 <= j < i implies #[trigger] after[j]
                    == before[j].with_filter(filter@) && same_timing(before[j], after[j]) by {
                    assert(self.effects@[j] == cells[j]);
                    assert(after[j] == effect_views(cells)[j]);
                }
            }
            i = i + 1;
        }
        proof {
            let after = effect_views(self.effects@);
            lemma_same_timing_lists(before, after);
            lemma_list_changed(before, after, Rect { x: 0, y: 0, width: 0, height: 0 }, filter@);
        }
    }

    /// A copy of the shader, with copies of its effects.
    pub fn duplicate(&self) -> (copy: Self)
        ensures
            copy.model() == self.model(),
        decreases self,
    {
        let mut effects: Vec<Effect> = Vec::new();
        let mut i: usize = 0;
        while i < self.effects.len()
            invariant
                0 <= i <= self.effects@.len(),
                effects@.len() == i,
                forall|j: int|
                    0 <= j < i ==> (#[trigger] effects@[j]).model() == self.effects@[j].model(),
            decreases self.effects@.len() - i,
        {
            effects.push(self.effects[i].duplicate());
            i = i + 1;
        }
        assert(effect_views(effects@) =~= effect_views(self.effects@));
        Self { effects }
    }

    /// Turns every effect round.
    pub fn reverse(&mut self)
        ensures
            final(self).model() == old(self).model().reversed(),
            same_timing(old(self).model(), final(self).model()),
            final(self).model().area() == old(self).model().area(),
            final(self).model().filter() == old(self).model().filter(),
        decreases *old(self),
    {
        let ghost before = effect_views(self.effects@);
        let n = self.effects.len();
        let mut i: usize = 0;
        while i < n
            invariant
                0 <= i <= n,
                n == self.effects@.len(),
                n == before.len(),
                before == effect_views(old(self).effects@),
                forall|j: int| i <= j < n ==> #[trigger] self.effects@[j] == old(self).effects@[j],
                forall|j: int|
                    0 <= j < i ==> #[trigger] effect_views(self.effects@)[j]
                        == before[j].reversed() && same_timing(
                        before[j],
                        effect_views(self.effects@)[j],
                    ),
            decreases n - i,
        {
            let ghost cells = self.effects@;
            proof {
                assert(self.effects@[i as int] == old(self).effects@[i as int]);
            }
            self.effects[i].reverse();
            proof {
                let after = effect_views(self.effects@);
                assert forall|j: int| 0 <= j < i implies #[trigger] after[j]
                    == before[j].reversed() && same_timing(before[j], after[j]) by {
                    assert(self.effects@[j] == cells[j]);
                    assert(after[j] == effect_views(cells)[j]);
                }
            }
            i = i + 1;
        }
        proof {
            let after = effect_views(self.effects@);
            lemma_same_timing_lists(before, after);
            lemma_list_changed(
                before,
                after,
                Rect { x: 0, y: 0, width: 0, height: 0 },
                crate::cell_filter::FilterView::All,
            );
        }
    }
}

impl SequentialEffect {
    /// The shader does not paint by alpha.
    pub proof fn lemma_paints_by_code(self)
        ensures
            !self.model().paints_by_alpha(),
    {
    }

    /// The shader keeps no timer that its user may change.
    pub proof fn lemma_keeps_no_timer(self)
        ensures
            self.model().own_timer() is None,
    {
    }

    /// The time that the sequence takes: the time of all its effects together; `None`
    /// where one of them has no end.
    pub fn total_duration(&self) -> (d: Option<Duration>)
        ensures
            millis_of(d) == capped(self.model().duration()),
            self.model().timer() == lasting(capped(self.model().duration())),
        decreases self,
    {
        let ghost views = effect_views(self.effects@);
        let mut sum: Option<Duration> = Some(Duration::zero());
        let mut i: usize = 0;
        while i < self.effects.len()
            invariant
                0 <= i <= self.effects@.len(),
                views == effect_views(self.effects@),
                millis_of(sum) == capped(length_upto(views, i as int)),
            decreases self.effects@.len() - i,
        {
            proof {
                assert(length_upto(views, i + 1) == plus(
                    length_upto(views, i as int),
                    views[i as int].duration(),
                ));
            }
            sum = plus_capped(sum, self.effects[i].total_duration());
            i = i + 1;
        }
        proof {
            lemma_split_sums(views, views.len() as int);
        }
        sum
    }

    /// The course of the sequence and of its effects, the sequence starting at `offset`:
    /// each effect starts when those before it have run.
    pub fn as_effect_span(&self, offset: Duration) -> (span: EffectSpan)
        ensures
            span.model() == self.model().span(offset.millis()),
        decreases self,
    {
        let ghost views = effect_views(self.effects@);
        let mut children: Vec<EffectSpan> = Vec::new();
        let mut sum: Option<Duration> = Some(Duration::zero());
        let mut i: usize = 0;
        while i < self.effects.len()
            invariant
                0 <= i <= self.effects@.len(),
                views == effect_views(self.effects@),
                millis_of(sum) == capped(length_upto(views, i as int)),
                children@.len() == i,
                forall|j: int|
                    0 <= j < i ==> (#[trigger] children@[j]).model() == views[j].span(
                        start_after(offset.millis(), length_upto(views, j)),
                    ),
            decreases self.effects@.len() - i,
        {
            proof {
                assert(length_upto(views, i + 1) == plus(
                    length_upto(views, i as int),
                    views[i as int].duration(),
                ));
                assert(views[i as int] == self.effects@[i as int].model());
            }
            let start = start_of_next(offset, sum);
            children.push(self.effects[i].as_effect_span(start));
            sum = plus_capped(sum, self.effects[i].total_duration());
            i = i + 1;
        }
        let span = EffectSpan {
            label: self.name(),
            start: offset,
            duration: self.total_duration(),
            children,
        };
        proof {
            lemma_list_span(self.model(), views, offset.millis(), span_views(span.children@));
        }
        span
    }
}

impl ParallelEffect {
    /// The shader does not paint by alpha.
    pub proof fn lemma_paints_by_code(self)
        ensures
            !self.model().paints_by_alpha(),
    {
    }

    /// The shader keeps no timer that its user may change.
    pub proof fn lemma_keeps_no_timer(self)
        ensures
            self.model().own_timer() is None,
    {
    }

    /// The time that the effects take side by side: the time of the longest; `None`
    /// where one of them has no end.
    pub fn total_duration(&self) -> (d: Option<Duration>)
        ensures
            millis_of(d) == capped(self.model().duration()),
            self.model().timer() == lasting(capped(self.model().duration())),
        decreases self,
    {
        let ghost views = effect_views(self.effects@);
        let mut longest: Option<Duration> = Some(Duration::zero());
        let mut i: usize = 0;
        while i < self.effects.len()
            invariant
                0 <= i <= self.effects@.len(),
                views == effect_views(self.effects@),
                millis_of(longest) == capped(longest_length_upto(views, i as int)),
            decreases self.effects@.len() - i,
        {
            proof {
                assert(longest_length_upto(views, i + 1) == longer(
                    longest_length_upto(views, i as int),
                    views[i as int].duration(),
                ));
            }
            longest = longer_capped(longest, self.effects[i].total_duration());
            i = i + 1;
        }
        longest
    }

    /// The course of the effects side by side, all starting at `offset`.
    pub fn as_effect_span(&self, offset: Duration) -> (span: EffectSpan)
        ensures
            span.model() == self.model().span(offset.millis()),
        decreases self,
    {
        let ghost views = effect_views(self.effects@);
        let mut children: Vec<EffectSpan> = Vec::new();
        let mut i: usize = 0;
        while i < self.effects.len()
            invariant
                0 <= i <= self.effects@.len(),
                views == effect_views(self.effects@),
                children@.len() == i,
                forall|j: int|
                    0 <= j < i ==> (#[trigger] children@[j]).model() == views[j].span(
                        offset.millis(),
                    ),
            decreases self.effects@.len() - i,
        {
            proof {
                assert(views[i as int] == self.effects@[i as int].model());
            }
            children.push(self.effects[i].as_effect_span(offset));
            i = i + 1;
        }
        let span = EffectSpan {
            label: self.name(),
            start: offset,
            duration: self.total_duration(),
            children,
        };
        proof {
            lemma_list_span(self.model(), views, offset.millis(), span_views(span.children@));
        }
        span
    }
}

} // verus!
