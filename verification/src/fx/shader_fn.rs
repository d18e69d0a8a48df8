//! An effect that runs code of the caller on every frame.

use vstd::prelude::*;
use crate::shader::{stepped, paints_cells};
use crate::effect_span::{millis_of, EffectSpan};
use crate::shader_view::capped;
use std::cell::RefCell;
use std::rc::Rc;
use ratatui::buffer::Buffer;
use ratatui::layout::{Position, Rect};
use crate::buffer::{
    area_of, buffer_area, buffer_cells, cell_at, cell_index, cell_of, has_cell, put_cell,
};
use crate::cell::CellView;
use crate::cell_iter::lemma_row_major_position;
use crate::cell::Cell;
use crate::cell_filter::CellFilter;
use crate::cell_iter::{is_selection, CellIterator};
use crate::duration::Duration;
use crate::effect_timer::EffectTimer;
use crate::fx::dissolve::listed;
use crate::fx::leaf::LeafState;
use crate::geometry::{positions_of, row_major};
use crate::interpolation::ALPHA_ONE;
use crate::shader::{reset_to, rewinds, same_frame, step_holds};
use crate::shader_view::{same_timing, Look, ShaderView};

verus! {

/// What the caller's code is told about the frame.
pub struct ShaderFnContext {
    /// The time that has passed since the last frame.
    pub last_tick: Duration,
    /// The timer of the effect, already advanced by that time.
    pub timer: EffectTimer,
    /// The area that the effect works in.
    pub area: Rect,
    /// The filter of the effect.
    pub filter: Option<CellFilter>,
}

impl ShaderFnContext {
    /// The alpha that the timer shows.
    pub fn alpha(&self) -> (a: u32)
        ensures
            a == self.timer.alpha_value(),
            a <= ALPHA_ONE,
    {
        self.timer.alpha()
    }
}

/// Code of the caller that works on the selected cells. Every copy of an effect shares
/// the code and the state that the code keeps.
#[verifier::external_body]
pub struct CellCode {
    f: Rc<RefCell<dyn FnMut(ShaderFnContext, &mut [(Position, Cell)])>>,
}

/// Code of the caller that works on the whole buffer. Every copy of an effect shares the
/// code and the state that the code keeps.
#[verifier::external_body]
pub struct BufferCode {
    f: Rc<RefCell<dyn FnMut(ShaderFnContext, &mut Buffer)>>,
}

impl CellCode {
    /// `Rc::new` on a `RefCell`: takes the code and its state into shared ownership.
    #[verifier::external_body]
    pub(crate) fn wrap<S, F>(state: S, f: F) -> CellCode where
        S: 'static,
        F: FnMut(&mut S, ShaderFnContext, &mut [(Position, Cell)]) + 'static,
     {
        let mut state = state;
        let mut f = f;
        CellCode {
            f: Rc::new(
                RefCell::new(move |ctx, cells: &mut [(Position, Cell)]| f(&mut state, ctx, cells)),
            ),
        }
    }

    /// `RefCell::try_borrow_mut`, and a call of what it lends: runs the caller's code on
    /// the cells, and hands them back as the code left them. The code gets a slice and
    /// cannot add or remove cells; nothing else is known of what it does. The cells come
    /// back as they are where the code is already running.
    #[verifier::external_body]
    pub(crate) fn call(&self, ctx: ShaderFnContext, cells: Vec<(Position, Cell)>) -> (out: Vec<
        (Position, Cell),
    >)
        ensures
            out@.len() == cells@.len(),
    {
        let mut cells = cells;
        if let Ok(mut f) = self.f.try_borrow_mut() {
            f(ctx, &mut cells);
        }
        cells
    }

    /// `Rc::clone`: another handle on the same code.
    #[verifier::external_body]
    pub(crate) fn share(&self) -> (r: CellCode)
        ensures
            r == *self,
    {
        CellCode { f: self.f.clone() }
    }
}

impl BufferCode {
    /// `Rc::new` on a `RefCell`: takes the code and its state into shared ownership.
    #[verifier::external_body]
    pub(crate) fn wrap<S, F>(state: S, f: F) -> BufferCode where
        S: 'static,
        F: FnMut(&mut S, ShaderFnContext, &mut Buffer) + 'static,
     {
        let mut state = state;
        let mut f = f;
        BufferCode {
            f: Rc::new(RefCell::new(move |ctx, buf: &mut Buffer| f(&mut state, ctx, buf))),
        }
    }

    /// `RefCell::try_borrow_mut`, and a call of what it lends: runs the caller's code on
    /// a copy of the buffer, and hands the copy back as the code left it. Nothing is
    /// known of what the code does. The copy comes back as it is where the code is
    /// already running.
    #[verifier::external_body]
    pub(crate) fn call(&self, ctx: ShaderFnContext, buf: &Buffer) -> Buffer {
        let mut copy = buf.clone();
        if let Ok(mut f) = self.f.try_borrow_mut() {
            f(ctx, &mut copy);
        }
        copy
    }

    /// `Rc::clone`: another handle on the same code.
    #[verifier::external_body]
    pub(crate) fn share(&self) -> (r: BufferCode)
        ensures
            r == *self,
    {
        BufferCode { f: self.f.clone() }
    }
}

/// The code of a custom effect, in one of its two forms.
pub enum ShaderFnSignature {
    /// Code that is given the cells that the effect's filter selects.
    Iter(CellCode),
    /// Code that is given the buffer.
    Buffer(BufferCode),
}

impl ShaderFnSignature {
    /// Code that works on the selected cells, with the state that it keeps.
    pub fn new_iter<S, F>(state: S, f: F) -> (code: ShaderFnSignature) where
        S: 'static,
        F: FnMut(&mut S, ShaderFnContext, &mut [(Position, Cell)]) + 'static,

        ensures
            code is Iter,
    {
        ShaderFnSignature::Iter(CellCode::wrap(state, f))
    }

    /// Code that works on the buffer, with the state that it keeps.
    pub fn new_buffer<S, F>(state: S, f: F) -> (code: ShaderFnSignature) where
        S: 'static,
        F: FnMut(&mut S, ShaderFnContext, &mut Buffer) + 'static,

        ensures
            code is Buffer,
    {
        ShaderFnSignature::Buffer(BufferCode::wrap(state, f))
    }

    /// Another handle on the same code.
    pub fn share(&self) -> (code: ShaderFnSignature)
        ensures
            code == *self,
    {
        match self {
            ShaderFnSignature::Iter(c) => ShaderFnSignature::Iter(c.share()),
            ShaderFnSignature::Buffer(c) => ShaderFnSignature::Buffer(c.share()),
        }
    }
}

/// Runs code of the caller on every frame, for the time of a timer. The code is given the
/// cells that the filter selects, or the buffer; whatever it does to the buffer, the area
/// of the buffer and the number of its cells stay as they are.
pub struct ShaderFn {
    state: LeafState,
    code: ShaderFnSignature,
}

impl ShaderFn {
    /// The state of the shader.
    pub closed spec fn model(self) -> ShaderView {
        self.state.model(Look::Custom { code: self.code })
    }

    /// A shader that runs `code` for the time of `timer`.
    pub fn new(code: ShaderFnSignature, timer: EffectTimer) -> (shader: ShaderFn)
        ensures
            shader.model() == (ShaderView::Leaf {
                timer,
                area: None,
                filter: crate::cell_filter::FilterView::All,
                look: Look::Custom { code },
            }),
    {
        ShaderFn { state: LeafState::new(timer), code }
    }

    /// The name of the shader.
    pub fn name(&self) -> (name: &'static str)
        ensures
            name@ == self.model().name(),
    {
        match &self.code {
            ShaderFnSignature::Iter(_) => "shader_fn",
            ShaderFnSignature::Buffer(_) => "shader_fn_buf",
        }
    }

    /// Advances the timer by `duration` and runs the code.
    ///
    /// Returns the time left over on the step that completes the timer.
    pub fn process(&mut self, duration: Duration, buf: &mut Buffer, area: Rect) -> (overflow:
        Option<Duration>)
        ensures
            paints_cells(final(self).model(), area, *old(buf), *final(buf)),
            stepped(
                old(self).model(),
                duration,
                final(self).model(),
                area,
                *old(buf),
                *final(buf),
            ),
            step_holds(
                old(self).model(),
                duration,
                final(self).model(),
                overflow,
                *old(buf),
                *final(buf),
            ),
            final(self).model() == (ShaderView::Leaf {
                timer: old(self).model()->Leaf_timer.advanced(duration),
                area: old(self).model()->Leaf_area,
                filter: old(self).model()->filter,
                look: old(self).model()->look,
            }),
    {
        proof {
            reveal(stepped);
        }
        let (overflow, _) = self.state.advance(duration);
        let ctx = self.context(duration, area);
        self.execute(ctx, area, buf);
        overflow
    }

    /// What the code is told about a frame: the time that the step has taken, the timer
    /// as the shader has it, the area that the shader was given, and a copy of the
    /// shader's filter.
    pub fn context(&self, last_tick: Duration, area: Rect) -> (ctx: ShaderFnContext)
        ensures
            ctx.last_tick == last_tick,
            ctx.timer == self.model()->Leaf_timer,
            ctx.area == area,
            ctx.filter matches Some(f) && f@ == self.model()->filter,
    {
        ShaderFnContext {
            last_tick,
            timer: self.state.timer(),
            area,
            filter: Some(self.state.cell_selection()),
        }
    }

    /// Runs the code.
    ///
    /// Code that works on cells is given the cells that the filter selects within `area`,
    /// each with its position, and what it leaves of them is written back to where they
    /// were: no other cell changes. Code that works on the buffer is given a copy of the
    /// buffer, and what it leaves of the copy's cells is written back.
    pub fn execute(&self, ctx: ShaderFnContext, area: Rect, buf: &mut Buffer)
        ensures
            same_frame(*old(buf), *final(buf)),
            self.model()->look->code is Iter ==> exists|positions: Seq<Position>|
                is_selection(
                    positions,
                    buffer_cells(*old(buf)),
                    buffer_area(*old(buf)),
                    area,
                    Some(self.model()->filter),
                ) && forall|j: int|
                    0 <= j < buffer_cells(*old(buf)).len() && !#[trigger] listed(
                        buffer_area(*old(buf)),
                        positions,
                        j,
                    ) ==> buffer_cells(*final(buf))[j] == buffer_cells(*old(buf))[j],
    {
        match &self.code {
            ShaderFnSignature::Iter(code) => {
                let iter = self.state.select(buf, area);
                let cells = cells_at(buf, &iter);
                let changed = code.call(ctx, cells);
                write_cells(buf, &iter, &changed);
            },
            ShaderFnSignature::Buffer(code) => {
                let changed = code.call(ctx, buf);
                copy_cells(&changed, buf);
            },
        }
    }

    /// Whether the shader is done.
    pub fn done(&self) -> (r: bool)
        ensures
            r == self.model().is_done(),
    {
        self.state.done()
    }

    /// Whether the shader takes no time.
    pub fn is_instant(&self) -> (r: bool)
        ensures
            r == self.model().instant(),
    {
        self.state.is_instant()
    }

    /// Puts the timer back to its start. The state that the code keeps is its own.
    pub fn reset(&mut self)
        ensures
            rewinds(old(self).model(), final(self).model()),
    {
        proof {
            reveal(reset_to);
        }
        self.state.reset()
    }

    /// Turns the timer round.
    pub fn reverse(&mut self)
        ensures
            final(self).model() == old(self).model().reversed(),
            same_timing(old(self).model(), final(self).model()),
            final(self).model().area() == old(self).model().area(),
            final(self).model().filter() == old(self).model().filter(),
    {
        self.state.reverse()
    }

    /// The area that the shader works in instead of the area that it is given.
    pub fn area(&self) -> (area: Option<Rect>)
        ensures
            area == self.model().area(),
    {
        self.state.area()
    }

    /// Makes the shader work in `area`.
    pub fn set_area(&mut self, area: Rect)
        ensures
            final(self).model() == old(self).model().with_area(area),
            same_timing(old(self).model(), final(self).model()),
    {
        self.state.set_area(area)
    }

    /// The filter that selects the cells for the code.
    pub fn cell_selection(&self) -> (filter: Option<CellFilter>)
        ensures
            filter matches Some(f) && Some(f@) == self.model().filter(),
    {
        Some(self.state.cell_selection())
    }

    /// Makes `filter` select the cells for the code.
    pub fn set_cell_selection(&mut self, filter: CellFilter)
        ensures
            final(self).model() == old(self).model().with_filter(filter@),
            same_timing(old(self).model(), final(self).model()),
    {
        self.state.set_cell_selection(filter)
    }

    /// The timer.
    pub fn timer(&self) -> (timer: EffectTimer)
        ensures
            timer == self.model()->Leaf_timer,
            self.model().timer() == Some(timer),
    {
        self.state.timer()
    }

    /// The timer of the shader, to be changed in place: what the caller leaves of it is
    /// the timer that the shader goes on with.
    pub fn timer_mut(&mut self) -> (timer: &mut EffectTimer)
        ensures
            old(self).model().own_timer() == Some(*timer),
            final(self).model() == old(self).model().with_timer(*final(timer)),
    {
        self.state.timer_mut()
    }

    /// A copy of the shader; it shares the code and the state that the code keeps.
    pub fn duplicate(&self) -> (copy: ShaderFn)
        ensures
            copy.model() == self.model(),
    {
        ShaderFn { state: self.state.duplicate(), code: self.code.share() }
    }
}

/// The cells at the positions of `iter`, each with its position, in the order of the
/// positions. The buffer must have a cell at every one of them, as it has at the
/// positions of a selection.
fn cells_at(buf: &Buffer, iter: &CellIterator) -> (cells: Vec<(Position, Cell)>)
    requires
        forall|k: int|
            0 <= k < iter.positions().len() ==> has_cell(
                buffer_cells(*buf).len(),
                buffer_area(*buf),
                #[trigger] iter.positions()[k],
            ),
    ensures
        cells@.len() == iter.positions().len(),
        forall|k: int|
            0 <= k < cells@.len() ==> (#[trigger] cells@[k]).0 == iter.positions()[k] && Some(
                cells@[k].1@,
            ) == cell_at(buffer_cells(*buf), buffer_area(*buf), iter.positions()[k]),
{
    let mut cells: Vec<(Position, Cell)> = Vec::new();
    let mut k: usize = 0;
    while k < iter.len()
        invariant
            0 <= k <= iter.positions().len(),
            cells@.len() == k,
            forall|j: int|
                0 <= j < iter.positions().len() ==> has_cell(
                    buffer_cells(*buf).len(),
                    buffer_area(*buf),
                    #[trigger] iter.positions()[j],
                ),
            forall|j: int|
                0 <= j < k ==> (#[trigger] cells@[j]).0 == iter.positions()[j] && Some(
                    cells@[j].1@,
                ) == cell_at(buffer_cells(*buf), buffer_area(*buf), iter.positions()[j]),
        decreases iter.positions().len() - k,
    {
        let p = iter.position(k);
        proof {
            assert(has_cell(buffer_cells(*buf).len(), buffer_area(*buf), iter.positions()[k as int]));
        }
        if let Some(cell) = cell_of(buf, p) {
            cells.push((p, cell));
        }
        k = k + 1;
    }
    cells
}

/// The cells of a buffer that covers `area` and held `before`, after the first `n` of
/// `cells` have been written, one after the other, each to the position that stands at
/// its place in `positions`. A cell whose position has no cell in the buffer is dropped.
pub open spec fn written(
    before: Seq<CellView>,
    area: Rect,
    positions: Seq<Position>,
    cells: Seq<(Position, Cell)>,
    n: int,
) -> Seq<CellView>
    decreases n,
{
    if n <= 0 {
        before
    } else {
        let earlier = written(before, area, positions, cells, n - 1);
        let p = positions[n - 1];
        if has_cell(before.len(), area, p) {
            earlier.update(cell_index(area, p), cells[n - 1].1@)
        } else {
            earlier
        }
    }
}

/// The smaller of two lengths.
pub open spec fn least(a: nat, b: nat) -> int {
    if a <= b {
        a as int
    } else {
        b as int
    }
}

/// Writing keeps the number of cells.
pub proof fn lemma_written_len(
    before: Seq<CellView>,
    area: Rect,
    positions: Seq<Position>,
    cells: Seq<(Position, Cell)>,
    n: int,
)
    ensures
        written(before, area, positions, cells, n).len() == before.len(),
    decreases n,
{
    if n > 0 {
        lemma_written_len(before, area, positions, cells, n - 1);
    }
}

/// Where no two of the first `n` positions name the same cell, as in a selection, each
/// of the cells written lies at its position afterwards.
pub proof fn lemma_written_at(
    before: Seq<CellView>,
    area: Rect,
    positions: Seq<Position>,
    cells: Seq<(Position, Cell)>,
    n: int,
    k: int,
)
    requires
        0 <= k < n <= positions.len(),
        n <= cells.len(),
        has_cell(before.len(), area, positions[k]),
        forall|i: int, j: int|
            0 <= i < j < n ==> cell_index(area, #[trigger] positions[i]) != cell_index(
                area,
                #[trigger] positions[j],
            ),
    ensures
        written(before, area, positions, cells, n)[cell_index(area, positions[k])] == cells[k].1@,
    decreases n,
{
    lemma_written_len(before, area, positions, cells, n - 1);
    if k < n - 1 {
        lemma_written_at(before, area, positions, cells, n - 1, k);
        assert(cell_index(area, positions[k]) != cell_index(area, positions[n - 1]));
    }
}

/// Writes each of `cells` to the position of `iter` that stands at its place, as far as
/// both go.
fn write_cells(buf: &mut Buffer, iter: &CellIterator, cells: &Vec<(Position, Cell)>)
    ensures
        same_frame(*old(buf), *final(buf)),
        buffer_cells(*final(buf)) == written(
            buffer_cells(*old(buf)),
            buffer_area(*old(buf)),
            iter.positions(),
            cells@,
            least(iter.positions().len(), cells@.len()),
        ),
        forall|j: int|
            0 <= j < buffer_cells(*old(buf)).len() && !#[trigger] listed(
                buffer_area(*old(buf)),
                iter.positions(),
                j,
            ) ==> buffer_cells(*final(buf))[j] == buffer_cells(*old(buf))[j],
{
    let ghost before = buffer_cells(*buf);
    let ghost area = buffer_area(*buf);
    let mut k: usize = 0;
    while k < iter.len() && k < cells.len()
        invariant
            0 <= k <= iter.positions().len(),
            k <= cells@.len(),
            buffer_area(*buf) == area,
            buffer_cells(*buf).len() == before.len(),
            buffer_cells(*buf) == written(before, area, iter.positions(), cells@, k as int),
            forall|j: int|
                0 <= j < before.len() && !#[trigger] listed(area, iter.positions(), j)
                    ==> buffer_cells(*buf)[j] == before[j],
        decreases iter.positions().len() - k,
    {
        let p = iter.position(k);
        proof {
            if has_cell(before.len(), area, p) {
                assert(listed(area, iter.positions(), cell_index(area, iter.positions()[k as int])));
            }
        }
        put_cell(buf, p, &cells[k].1);
        k = k + 1;
    }
}

/// Whether every position of the area can be named: the area has cells and ends within
/// the coordinate space.
pub open spec fn nameable(area: Rect) -> bool {
    area.width > 0 && area.height > 0 && area.x + area.width <= u16::MAX && area.y + area.height
        <= u16::MAX
}

/// The cell that lies at one place of a buffer once the cells of another buffer have
/// been laid over it: the cell that the other buffer has at the position `p` of that
/// place, or `before` where it has none.
pub open spec fn overlaid_cell(
    from_cells: Seq<CellView>,
    from_area: Rect,
    p: Position,
    before: CellView,
) -> CellView {
    match cell_at(from_cells, from_area, p) {
        Some(c) => c,
        None => before,
    }
}

/// Whether `after` is what the cells `before` of a buffer over `area` become when the
/// first `n` positions of the area, row by row, have been given the cells that another
/// buffer has there.
pub open spec fn is_overlaid_upto(
    before: Seq<CellView>,
    after: Seq<CellView>,
    area: Rect,
    from_cells: Seq<CellView>,
    from_area: Rect,
    n: int,
) -> bool {
    &&& after.len() == before.len()
    &&& forall|j: int|
        0 <= j < before.len() ==> #[trigger] after[j] == if j < n {
            overlaid_cell(from_cells, from_area, row_major(area)[j], before[j])
        } else {
            before[j]
        }
}

/// Gives every cell of `to` the cell that `from` has at the same position, where it has
/// one. A buffer whose area has no cells, or does not end within the coordinate space,
/// stays as it is.
fn copy_cells(from: &Buffer, to: &mut Buffer)
    ensures
        same_frame(*old(to), *final(to)),
        nameable(buffer_area(*old(to))) ==> is_overlaid_upto(
            buffer_cells(*old(to)),
            buffer_cells(*final(to)),
            buffer_area(*old(to)),
            buffer_cells(*from),
            buffer_area(*from),
            buffer_area(*old(to)).width * buffer_area(*old(to)).height,
        ),
        !nameable(buffer_area(*old(to))) ==> buffer_cells(*final(to)) == buffer_cells(*old(to)),
{
    let area = area_of(to);
    if area.width == 0 || area.height == 0 || area.x as u32 + area.width as u32 > 0xffff
        || area.y as u32 + area.height as u32 > 0xffff {
        return ;
    }
    let ghost before = buffer_cells(*to);
    let positions = positions_of(area);
    let mut k: usize = 0;
    while k < positions.len()
        invariant
            same_frame(*old(to), *to),
            before == buffer_cells(*old(to)),
            area == buffer_area(*old(to)),
            nameable(area),
            positions@ == row_major(area),
            0 <= k <= positions@.len(),
            is_overlaid_upto(
                before,
                buffer_cells(*to),
                area,
                buffer_cells(*from),
                buffer_area(*from),
                k as int,
            ),
        decreases positions@.len() - k,
    {
        let ghost now = buffer_cells(*to);
        proof {
            lemma_row_major_position(area, k as int);
            assert(cell_index(area, positions@[k as int]) == k);
        }
        if let Some(cell) = cell_of(from, positions[k]) {
            put_cell(to, positions[k], &cell);
        }
        proof {
            let after = buffer_cells(*to);
            assert forall|j: int| 0 <= j < before.len() implies #[trigger] after[j] == if j < k
                + 1 {
                overlaid_cell(buffer_cells(*from), buffer_area(*from), row_major(area)[j], before[j])
            } else {
                before[j]
            } by {
                assert(now[j] == if j < k {
                    overlaid_cell(
                        buffer_cells(*from),
                        buffer_area(*from),
                        row_major(area)[j],
                        before[j],
                    )
                } else {
                    before[j]
                });
            }
        }
        k = k + 1;
    }
}

impl ShaderFn {
    /// The shader does not paint by alpha.
    pub proof fn lemma_paints_by_code(self)
        ensures
            !self.model().paints_by_alpha(),
    {
    }

    /// The time that the shader takes from its start to its end.
    pub fn total_duration(&self) -> (d: Option<Duration>)
        ensures
            millis_of(d) == capped(self.model().duration()),
    {
        let d = self.state.timer().duration();
        proof {
            d.lemma_millis_bounded();
        }
        Some(d)
    }

    /// The course of the shader in time, the shader starting at `offset`.
    pub fn as_effect_span(&self, offset: Duration) -> (span: EffectSpan)
        ensures
            span.model() == self.model().span(offset.millis()),
    {
        EffectSpan::leaf(self.name(), offset, self.total_duration())
    }
}

} // verus!
