//! An effect that blanks cells, more and more of them as it runs.

use vstd::prelude::*;
use crate::shader::{stepped, paints_at, paints_cells};
use crate::effect_span::{millis_of, EffectSpan};
use crate::shader_view::capped;
use ratatui::buffer::Buffer;
use ratatui::layout::{Position, Rect};
use crate::buffer::{
    area_of,
    buffer_area,
    buffer_cells,
    cell_at,
    cell_index,
    cell_of,
    has_cell,
    lemma_cell_index_injective,
    put_cell,
};
use crate::cell::{Cell, CellView, Style};
use crate::cell_filter::{CellFilter, FilterView};
use crate::cell_iter::{is_selection, region_rank, CellIterator};
use crate::duration::Duration;
use crate::effect_timer::EffectTimer;
use crate::geometry::{contains_position, intersection_of};
use crate::interpolation::{clamp_alpha, clamped_alpha, ALPHA_ONE};
use crate::shader::{reset_to, rewinds, same_frame, step_holds, step_timing};
use crate::shader_view::{same_timing, Look, ShaderView};
use crate::simple_rng::{fraction_at, state_after, SimpleRng, FRACTION_ONE};

verus! {

/// The style that a shader that blanks cells gives them.
pub open spec fn dissolve_style(v: ShaderView) -> Option<Style> {
    match v {
        ShaderView::Leaf { look: Look::Dissolve { style, .. }, .. } => style,
        _ => None,
    }
}

/// The generator of a shader that blanks cells.
pub open spec fn dissolve_rng(v: ShaderView) -> SimpleRng {
    match v {
        ShaderView::Leaf { look: Look::Dissolve { rng, .. }, .. } => rng,
        _ => SimpleRng::new_spec(0),
    }
}

/// The seed of the generator of a shader that blanks cells.
pub open spec fn dissolve_seed(v: ShaderView) -> u32 {
    dissolve_rng(v).state()
}

/// Whether the `k`-th selected cell is blanked at `alpha`, by a generator started from
/// `seed`: the `k`-th fraction of the generator lies below `alpha`.
pub open spec fn dissolves(alpha: u32, seed: u32, k: nat) -> bool {
    alpha * 128 > fraction_at(seed, k)
}

/// A cell, blanked: its symbol is a blank, and it has the style, if there is one.
pub open spec fn dissolved_cell(cell: CellView, style: Option<Style>) -> CellView {
    match style {
        Some(s) => cell.blanked().styled(s),
        None => cell.blanked(),
    }
}

/// Whether `after` is what blanking leaves of `before`: of the cells at `positions`, the
/// `k`-th is blanked where its fraction lies below `alpha`; every other cell is as it was.
pub open spec fn is_dissolved(
    before: Seq<CellView>,
    after: Seq<CellView>,
    area: Rect,
    positions: Seq<Position>,
    alpha: u32,
    seed: u32,
    style: Option<Style>,
) -> bool {
    &&& after.len() == before.len()
    &&& forall|k: int|
        0 <= k < positions.len() ==> after[#[trigger] cell_index(area, positions[k])] == if dissolves(
            alpha,
            seed,
            k as nat,
        ) {
            dissolved_cell(before[cell_index(area, positions[k])], style)
        } else {
            before[cell_index(area, positions[k])]
        }
    &&& forall|j: int|
        0 <= j < before.len() && !listed(area, positions, j) ==> #[trigger] after[j] == before[j]
}

/// Whether the `j`-th cell of a buffer over `area` is the cell at one of the positions.
pub open spec fn listed(area: Rect, positions: Seq<Position>, j: int) -> bool {
    exists|k: int| 0 <= k < positions.len() && #[trigger] cell_index(area, positions[k]) == j
}

/// Blanks the cells that its filter selects, each when the effect's alpha passes the
/// cell's own random threshold. With a timer that runs backwards the cells come back
/// instead: the effect is then called "coalesce".
///
/// The thresholds come from a generator that starts anew on every frame, so that a cell
/// keeps its threshold from frame to frame.
pub struct Dissolve {
    timer: EffectTimer,
    dissolved_style: Option<Style>,
    area: Option<Rect>,
    cell_filter: CellFilter,
    lcg: SimpleRng,
}

impl Dissolve {
    /// The state of the shader.
    pub closed spec fn model(self) -> ShaderView {
        ShaderView::Leaf {
                timer: self.timer,
                area: self.area,
                filter: self.cell_filter@,
                look: Look::Dissolve { style: self.dissolved_style, rng: self.lcg },
            }
    }

    /// An effect that blanks every cell over the time of `lifetime`.
    pub fn new(lifetime: EffectTimer) -> (shader: Dissolve)
        ensures
            shader.model() == (ShaderView::Leaf {
                timer: lifetime,
                area: None,
                filter: FilterView::All,
                look: Look::Dissolve { style: None, rng: SimpleRng::new_spec(0x5eed_1e55) },
            }),
    {
        Self {
            timer: lifetime,
            dissolved_style: None,
            area: None,
            cell_filter: CellFilter::All,
            lcg: SimpleRng::default(),
        }
    }

    /// An effect that blanks every cell over the time of `lifetime`, and gives each blanked
    /// cell the style `style`.
    pub fn with_style(style: Style, lifetime: EffectTimer) -> (shader: Dissolve)
        ensures
            shader.model() == (ShaderView::Leaf {
                timer: lifetime,
                area: None,
                filter: FilterView::All,
                look: Look::Dissolve { style: Some(style), rng: SimpleRng::new_spec(0x5eed_1e55) },
            }),
    {
        Self {
            dissolved_style: Some(style),
            timer: lifetime,
            area: None,
            cell_filter: CellFilter::All,
            lcg: SimpleRng::default(),
        }
    }

    /// The same effect with its thresholds drawn from `rng`.
    pub fn with_rng(self, rng: SimpleRng) -> (shader: Dissolve)
        ensures
            shader.model() == (ShaderView::Leaf {
                timer: self.model()->Leaf_timer,
                area: self.model()->Leaf_area,
                filter: self.model()->filter,
                look: Look::Dissolve { style: dissolve_style(self.model()), rng },
            }),
    {
        Self { lcg: rng, ..self }
    }

    /// The name of the shader.
    pub fn name(&self) -> (name: &'static str)
        ensures
            name@ == self.model().name(),
    {
        if self.timer.is_reversed() {
            "coalesce"
        } else {
            "dissolve"
        }
    }

    /// Advances the timer by `duration` and blanks cells at the alpha that it then shows.
    ///
    /// Returns the time left over on the step that completes the timer.
    pub fn process(&mut self, duration: Duration, buf: &mut Buffer, area: Rect) -> (overflow:
        Option<Duration>)
        ensures
            paints_cells(final(self).model(), area, *old(buf), *final(buf)),
            stepped(
                old(self).model(),
                duration,
                final(self).model(),
                area,
                *old(buf),
                *final(buf),
            ),
            step_holds(
                old(self).model(),
                duration,
                final(self).model(),
                overflow,
                *old(buf),
                *final(buf),
            ),
            final(self).model() == (ShaderView::Leaf {
                timer: old(self).model()->Leaf_timer.advanced(duration),
                area: old(self).model()->Leaf_area,
                filter: old(self).model()->filter,
                look: Look::Dissolve {
                    style: dissolve_style(old(self).model()),
                    rng: dissolve_rng(old(self).model()),
                },
            }),
            exists|positions: Seq<Position>|
                is_selection(
                    positions,
                    buffer_cells(*old(buf)),
                    buffer_area(*old(buf)),
                    area,
                    Some(old(self).model()->filter),
                ) && #[trigger] is_dissolved(
                    buffer_cells(*old(buf)),
                    buffer_cells(*final(buf)),
                    buffer_area(*old(buf)),
                    positions,
                    final(self).model()->Leaf_timer.alpha_value() as u32,
                    dissolve_seed(old(self).model()),
                    dissolve_style(old(self).model()),
                ),
    {
        proof {
            reveal(stepped);
        }
        proof {
            self.timer.lemma_advance_any(duration);
            self.timer.advanced(duration).lemma_alpha_at_ends();
        }
        let overflow = self.timer.process(duration);
        let alpha = self.timer.alpha();
        self.execute(alpha, area, buf);
        proof {
            let positions = choose|positions: Seq<Position>|
                is_selection(
                    positions,
                    buffer_cells(*old(buf)),
                    buffer_area(*old(buf)),
                    area,
                    Some(self.model()->filter),
                ) && #[trigger] is_dissolved(
                    buffer_cells(*old(buf)),
                    buffer_cells(*buf),
                    buffer_area(*old(buf)),
                    positions,
                    alpha,
                    dissolve_seed(self.model()),
                    dissolve_style(self.model()),
                );
            assert(is_dissolved(
                buffer_cells(*old(buf)),
                buffer_cells(*buf),
                buffer_area(*old(buf)),
                positions,
                self.model()->Leaf_timer.alpha_value() as u32,
                dissolve_seed(old(self).model()),
                dissolve_style(old(self).model()),
            ));
        }
        overflow
    }

    /// Blanks cells at `alpha`.
    ///
    /// The cells that the filter selects within `area` are visited in their order, and
    /// each is given the next fraction of the generator; the cell is blanked where its
    /// fraction lies below `alpha`. At alpha zero nothing changes; at alpha one every
    /// selected cell is blanked.
    pub fn execute(&self, alpha: u32, area: Rect, buf: &mut Buffer)
        ensures
            self.model().paints_by_alpha(),
            paints_at(self.model(), clamped_alpha(alpha), area, *old(buf), *final(buf)),
            same_frame(*old(buf), *final(buf)),
            exists|positions: Seq<Position>|
                is_selection(
                    positions,
                    buffer_cells(*old(buf)),
                    buffer_area(*old(buf)),
                    area,
                    Some(self.model()->filter),
                ) && #[trigger] is_dissolved(
                    buffer_cells(*old(buf)),
                    buffer_cells(*final(buf)),
                    buffer_area(*old(buf)),
                    positions,
                    clamped_alpha(alpha),
                    dissolve_seed(self.model()),
                    dissolve_style(self.model()),
                ),
            clamped_alpha(alpha) == 0 ==> buffer_cells(*final(buf)) == buffer_cells(*old(buf)),
    {
        let alpha: u32 = clamp_alpha(alpha);
        let cell_iter = self.cell_iter(buf, area);
        proof {
            let positions = cell_iter.positions();
            let region = intersection_of(area, buffer_area(*buf));
            assert forall|j: int, k: int| 0 <= j < k < positions.len() implies positions[j]
                != positions[k] by {
                assert(region_rank(region, positions[j]) < region_rank(region, positions[k]));
            }
        }
        dissolve_cells(buf, &cell_iter, alpha, self.lcg, self.dissolved_style);
        proof {
            assert(is_dissolved(
                buffer_cells(*old(buf)),
                buffer_cells(*buf),
                buffer_area(*old(buf)),
                cell_iter.positions(),
                alpha,
                dissolve_seed(self.model()),
                dissolve_style(self.model()),
            ));
        }
    }

    /// The cells within `area` that the effect's filter selects.
    pub fn cell_iter(&self, buf: &Buffer, area: Rect) -> (iter: CellIterator)
        ensures
            is_selection(
                iter.positions(),
                buffer_cells(*buf),
                buffer_area(*buf),
                area,
                Some(self.model()->filter),
            ),
    {
        CellIterator::new(buf, area, Some(&self.cell_filter))
    }

    /// Whether the shader is done.
    pub fn done(&self) -> (r: bool)
        ensures
            r == self.model().is_done(),
    {
        self.timer.done()
    }

    /// Whether the effect takes no time.
    pub fn is_instant(&self) -> (r: bool)
        ensures
            r == self.model().instant(),
    {
        self.timer.duration().is_zero()
    }

    /// Puts the effect back to its start.
    pub fn reset(&mut self)
        ensures
            final(self).model() == (ShaderView::Leaf {
                timer: old(self).model()->Leaf_timer.rewound(),
                area: old(self).model()->Leaf_area,
                filter: old(self).model()->filter,
                look: Look::Dissolve {
                    style: dissolve_style(old(self).model()),
                    rng: dissolve_rng(old(self).model()),
                },
            }),
            rewinds(old(self).model(), final(self).model()),
    {
        proof {
            reveal(reset_to);
        }
        proof {
            self.timer.lemma_parts(
                Duration::from_millis_spec(0),
                self.timer.curve_kind(),
                Duration::from_millis_spec(0),
            );
        }
        self.timer.reset();
    }

    /// Turns the effect round: blanking becomes coming back, and the other way.
    pub fn reverse(&mut self)
        ensures
            final(self).model() == old(self).model().reversed(),
            same_timing(old(self).model(), final(self).model()),
            final(self).model().area() == old(self).model().area(),
            final(self).model().filter() == old(self).model().filter(),
    {
        proof {
            self.timer.lemma_parts(
                Duration::from_millis_spec(0),
                self.timer.curve_kind(),
                Duration::from_millis_spec(0),
            );
        }
        self.timer = self.timer.reversed();
    }

    /// A copy of the effect.
    pub fn duplicate(&self) -> (copy: Dissolve)
        ensures
            copy.model() == self.model(),
    {
        Self {
            timer: self.timer,
            dissolved_style: self.dissolved_style,
            area: self.area,
            cell_filter: self.cell_filter.duplicate(),
            lcg: self.lcg,
        }
    }

    /// The area that the effect works in instead of the area that it is given.
    pub fn area(&self) -> (area: Option<Rect>)
        ensures
            area == self.model().area(),
    {
        self.area
    }

    /// Makes the effect work in `area`, whatever area it is given.
    pub fn set_area(&mut self, area: Rect)
        ensures
            final(self).model() == old(self).model().with_area(area),
            same_timing(old(self).model(), final(self).model()),
    {
        self.area = Some(area)
    }

    /// The filter that selects the cells to blank.
    pub fn cell_selection(&self) -> (filter: Option<CellFilter>)
        ensures
            filter matches Some(f) && Some(f@) == self.model().filter(),
    {
        Some(self.cell_filter.duplicate())
    }

    /// Makes the effect blank the cells that `strategy` selects.
    pub fn set_cell_selection(&mut self, strategy: CellFilter)
        ensures
            final(self).model() == old(self).model().with_filter(strategy@),
            same_timing(old(self).model(), final(self).model()),
    {
        self.cell_filter = strategy
    }

    /// The timer of the shader.
    pub fn timer(&self) -> (timer: EffectTimer)
        ensures
            timer == self.model()->Leaf_timer,
            self.model().timer() == Some(timer),
    {
        self.timer
    }

    /// The timer of the shader, to be changed in place: what the caller leaves of it is
    /// the timer that the shader goes on with.
    pub fn timer_mut(&mut self) -> (timer: &mut EffectTimer)
        ensures
            old(self).model().own_timer() == Some(*timer),
            final(self).model() == old(self).model().with_timer(*final(timer)),
    {
        &mut self.timer
    }
}

/// At alpha zero no cell is blanked, and at alpha one every cell is; a cell that is
/// blanked at one alpha is blanked at every greater alpha.
pub proof fn lemma_dissolves(seed: u32, k: nat, alpha: u32, greater: u32)
    requires
        alpha <= greater,
    ensures
        !dissolves(0, seed, k),
        dissolves(ALPHA_ONE, seed, k),
        dissolves(alpha, seed, k) ==> dissolves(greater, seed, k),
{
    SimpleRng::lemma_step(seed, k);
}

/// Blanking at alpha zero leaves every cell as it was. That is where an effect that
/// brings cells back ends: its timer runs backwards, and shows alpha zero once it is done,
/// so that what it then paints is what was rendered.
pub proof fn lemma_coalesce_restores(
    before: Seq<CellView>,
    after: Seq<CellView>,
    area: Rect,
    positions: Seq<Position>,
    timer: EffectTimer,
    seed: u32,
    style: Option<Style>,
)
    requires
        timer.runs_backwards(),
        timer.is_done(),
        is_dissolved(before, after, area, positions, timer.alpha_value() as u32, seed, style),
    ensures
        timer.alpha_value() == 0,
        after == before,
{
    timer.lemma_alpha_at_ends();
    assert forall|j: int| 0 <= j < before.len() implies after[j] == before[j] by {
        if listed(area, positions, j) {
            let k = choose|k: int|
                0 <= k < positions.len() && #[trigger] cell_index(area, positions[k]) == j;
            lemma_dissolves(seed, k as nat, 0, 0);
        }
    }
    assert(after =~= before);
}

/// Blanking at alpha one blanks every cell that is selected. That is where an effect
/// that blanks cells ends: its timer runs forwards, and shows alpha one once it is done.
pub proof fn lemma_dissolve_completes(
    before: Seq<CellView>,
    after: Seq<CellView>,
    area: Rect,
    positions: Seq<Position>,
    timer: EffectTimer,
    seed: u32,
    style: Option<Style>,
)
    requires
        !timer.runs_backwards(),
        timer.is_done(),
        is_dissolved(before, after, area, positions, timer.alpha_value() as u32, seed, style),
    ensures
        timer.alpha_value() == ALPHA_ONE,
        forall|k: int|
            0 <= k < positions.len() ==> after[#[trigger] cell_index(area, positions[k])]
                == dissolved_cell(before[cell_index(area, positions[k])], style),
{
    timer.lemma_alpha_at_ends();
    assert forall|k: int| 0 <= k < positions.len() implies after[#[trigger] cell_index(
        area,
        positions[k],
    )] == dissolved_cell(before[cell_index(area, positions[k])], style) by {
        lemma_dissolves(seed, k as nat, 0, 0);
    }
}

/// Whether `now` is what blanking has made of `before` once the first `k` positions are
/// dealt with.
pub open spec fn is_dissolved_upto(
    before: Seq<CellView>,
    now: Seq<CellView>,
    area: Rect,
    positions: Seq<Position>,
    k: int,
    alpha: u32,
    seed: u32,
    style: Option<Style>,
) -> bool {
    &&& now.len() == before.len()
    &&& forall|i: int|
        0 <= i < positions.len() ==> now[#[trigger] cell_index(area, positions[i])] == if i < k
            && dissolves(alpha, seed, i as nat) {
            dissolved_cell(before[cell_index(area, positions[i])], style)
        } else {
            before[cell_index(area, positions[i])]
        }
    &&& forall|j: int|
        0 <= j < before.len() && !listed(area, positions, j) ==> #[trigger] now[j] == before[j]
}

/// Dealing with the `k`-th position keeps what blanking has done so far.
proof fn lemma_dissolve_step(
    before: Seq<CellView>,
    prev: Seq<CellView>,
    now: Seq<CellView>,
    area: Rect,
    positions: Seq<Position>,
    k: int,
    alpha: u32,
    seed: u32,
    style: Option<Style>,
)
    requires
        0 <= k < positions.len(),
        forall|i: int|
            0 <= i < positions.len() ==> has_cell(before.len(), area, #[trigger] positions[i]),
        forall|i: int, j: int| 0 <= i < j < positions.len() ==> positions[i] != positions[j],
        is_dissolved_upto(before, prev, area, positions, k, alpha, seed, style),
        now == if dissolves(alpha, seed, k as nat) {
            prev.update(
                cell_index(area, positions[k]),
                dissolved_cell(prev[cell_index(area, positions[k])], style),
            )
        } else {
            prev
        },
    ensures
        is_dissolved_upto(before, now, area, positions, k + 1, alpha, seed, style),
{
    let p = positions[k];
    assert(has_cell(before.len(), area, p));
    assert forall|i: int| 0 <= i < positions.len() implies now[#[trigger] cell_index(
        area,
        positions[i],
    )] == if i < k + 1 && dissolves(alpha, seed, i as nat) {
        dissolved_cell(before[cell_index(area, positions[i])], style)
    } else {
        before[cell_index(area, positions[i])]
    } by {
        assert(has_cell(before.len(), area, positions[i]));
        if i != k {
            if cell_index(area, positions[i]) == cell_index(area, p) {
                lemma_cell_index_injective(area, positions[i], p);
            }
        }
    }
    assert(listed(area, positions, cell_index(area, positions[k])));
}

/// A cell, blanked.
fn dissolved(cell: Cell, style: Option<Style>) -> (c: Cell)
    ensures
        c@ == dissolved_cell(cell@, style),
{
    let mut c = cell;
    c.set_char(' ');
    if let Some(s) = style {
        c.set_style(s);
    }
    c
}

/// Blanks the cells at the positions of `iter`: the `k`-th where the `k`-th fraction of
/// `rng` lies below `alpha`.
pub fn dissolve_cells(
    buf: &mut Buffer,
    iter: &CellIterator,
    alpha: u32,
    rng: SimpleRng,
    style: Option<Style>,
)
    requires
        alpha <= ALPHA_ONE,
        forall|k: int|
            0 <= k < iter.positions().len() ==> has_cell(
                buffer_cells(*old(buf)).len(),
                buffer_area(*old(buf)),
                #[trigger] iter.positions()[k],
            ),
        forall|j: int, k: int|
            0 <= j < k < iter.positions().len() ==> iter.positions()[j] != iter.positions()[k],
    ensures
        same_frame(*old(buf), *final(buf)),
        is_dissolved(
            buffer_cells(*old(buf)),
            buffer_cells(*final(buf)),
            buffer_area(*old(buf)),
            iter.positions(),
            alpha,
            rng.state(),
            style,
        ),
        alpha == 0 ==> buffer_cells(*final(buf)) == buffer_cells(*old(buf)),
{
    let ghost before = buffer_cells(*buf);
    let ghost area = buffer_area(*buf);
    let ghost positions = iter.positions();
    let ghost seed = rng.state();
    let mut lcg = rng;
    let n = iter.len();
    let mut k: usize = 0;
    while k < n
        invariant
            0 <= k <= n,
            n == positions.len(),
            positions == iter.positions(),
            alpha <= ALPHA_ONE,
            buffer_area(*buf) == area,
            lcg.state() == state_after(seed, k as nat),
            forall|i: int| 0 <= i < n ==> has_cell(before.len(), area, #[trigger] positions[i]),
            forall|i: int, j: int| 0 <= i < j < n ==> positions[i] != positions[j],
            is_dissolved_upto(before, buffer_cells(*buf), area, positions, k as int, alpha, seed, style),
            alpha == 0 ==> buffer_cells(*buf) == before,
        decreases n - k,
    {
        let p = iter.position(k);
        let ghost prev = buffer_cells(*buf);
        proof {
            SimpleRng::lemma_step(seed, k as nat);
        }
        let fraction = lcg.gen_fraction();
        let hit = (alpha as u64) * 128 > fraction as u64;
        assert(hit == dissolves(alpha, seed, k as nat));
        if hit {
            assert(has_cell(before.len(), area, positions[k as int]));
            if let Some(cell) = cell_of(buf, p) {
                let c = dissolved(cell, style);
                put_cell(buf, p, &c);
            }
        }
        proof {
            lemma_dissolve_step(
                before,
                prev,
                buffer_cells(*buf),
                area,
                positions,
                k as int,
                alpha,
                seed,
                style,
            );
        }
        k = k + 1;
    }
}

impl Dissolve {
    /// The time that the shader takes from its start to its end.
    pub fn total_duration(&self) -> (d: Option<Duration>)
        ensures
            millis_of(d) == capped(self.model().duration()),
    {
        let d = self.timer.duration();
        proof {
            d.lemma_millis_bounded();
        }
        Some(d)
    }

    /// The course of the shader in time, the shader starting at `offset`.
    pub fn as_effect_span(&self, offset: Duration) -> (span: EffectSpan)
        ensures
            span.model() == self.model().span(offset.millis()),
    {
        EffectSpan::leaf(self.name(), offset, self.total_duration())
    }
}

} // verus!
