//! The cell grid of `ratatui`, seen as an area and a sequence of cells.

use vstd::prelude::*;
use std::cell::RefCell;
use std::rc::Rc;
use ratatui::buffer::Buffer;
use ratatui::layout::{Position, Rect};
use crate::cell::{Cell, CellView, Modifier};
use crate::geometry::contains_position;

verus! {

/// `ratatui::buffer::Buffer`, opaque: what it holds is told by [`buffer_area`] and
/// [`buffer_cells`].
#[verifier::external_type_specification]
#[verifier::external_body]
pub struct ExBuffer(Buffer);

/// The cells that the buffer holds, in the order of its content: row by row from the
/// top of its area.
pub uninterp spec fn buffer_cells(buf: Buffer) -> Seq<CellView>;

/// The area that the buffer covers.
pub uninterp spec fn buffer_area(buf: Buffer) -> Rect;

/// The place of a position in the content of a buffer that covers `area`.
pub open spec fn cell_index(area: Rect, p: Position) -> int {
    (p.y - area.y) * area.width + (p.x - area.x)
}

/// Whether a buffer with `len` cells that covers `area` has a cell at the position.
pub open spec fn has_cell(len: nat, area: Rect, p: Position) -> bool {
    contains_position(area, p) && cell_index(area, p) < len
}

/// The cell at a position, where the buffer has one.
pub open spec fn cell_at(cells: Seq<CellView>, area: Rect, p: Position) -> Option<CellView> {
    if has_cell(cells.len(), area, p) {
        Some(cells[cell_index(area, p)])
    } else {
        None
    }
}

/// `Buffer::area`: the area that the buffer covers.
#[verifier::external_body]
pub(crate) fn area_of(buf: &Buffer) -> (area: Rect)
    ensures
        area == buffer_area(*buf),
{
    *buf.area()
}

/// `Buffer::cell`: the cell at the position, copied out; `None` where the position is
/// outside the buffer's area or past the end of its content.
#[verifier::external_body]
pub(crate) fn cell_of(buf: &Buffer, p: Position) -> (cell: Option<Cell>)
    ensures
        cell is Some == has_cell(buffer_cells(*buf).len(), buffer_area(*buf), p),
        cell matches Some(c) ==> Some(c@) == cell_at(buffer_cells(*buf), buffer_area(*buf), p),
{
    match buf.cell(p) {
        Some(c) => Some(Cell {
            symbol: c.symbol().to_string(),
            fg: c.fg,
            bg: c.bg,
            modifier: Modifier { bits: c.modifier.bits() },
            skip: c.skip,
        }),
        None => None,
    }
}

/// `Buffer::cell_mut`, written through: the cell at the position becomes `cell`, and
/// nothing else changes; nothing changes at all where the buffer has no cell there.
#[verifier::external_body]
pub(crate) fn put_cell(buf: &mut Buffer, p: Position, cell: &Cell)
    ensures
        buffer_area(*final(buf)) == buffer_area(*old(buf)),
        buffer_cells(*final(buf)) == if has_cell(
            buffer_cells(*old(buf)).len(),
            buffer_area(*old(buf)),
            p,
        ) {
            buffer_cells(*old(buf)).update(cell_index(buffer_area(*old(buf)), p), cell@)
        } else {
            buffer_cells(*old(buf))
        },
{
    if let Some(c) = buf.cell_mut(p) {
        c.set_symbol(cell.symbol.as_str());
        c.fg = cell.fg;
        c.bg = cell.bg;
        c.modifier = ratatui::style::Modifier::from_bits_retain(cell.modifier.bits);
        c.skip = cell.skip;
    }
}

/// Two positions of an area with the same place in its content are the same position.
pub proof fn lemma_cell_index_injective(area: Rect, p: Position, q: Position)
    requires
        contains_position(area, p),
        contains_position(area, q),
        cell_index(area, p) == cell_index(area, q),
    ensures
        p == q,
{
    let w = area.width as int;
    let (a, b) = (p.y - area.y, p.x - area.x);
    let (c, d) = (q.y - area.y, q.x - area.x);
    assert(a == c && b == d) by (nonlinear_arith)
        requires
            a * w + b == c * w + d,
            0 <= b < w,
            0 <= d < w,
            0 <= a,
            0 <= c,
    ;
}

/// `std::cell::RefCell`, opaque: what a cell holds can change under a shared reference,
/// so nothing is said of it.
#[verifier::external_type_specification]
#[verifier::external_body]
#[verifier::reject_recursive_types(T)]
pub struct ExRefCell<T: ?Sized>(RefCell<T>);

/// `RefCell::new`: a cell that holds the value. Nothing is stated of it: what a cell
/// holds changes under a shared reference.
pub assume_specification<T>[ RefCell::<T>::new ](value: T) -> (cell: RefCell<T>);

/// `Rc::clone`: another owner of the same cell.
#[verifier::external_body]
fn clone_rc(rc: &Rc<RefCell<Buffer>>) -> (res: Rc<RefCell<Buffer>>)
    ensures
        res == *rc,
{
    rc.clone()
}

/// `RefCell::try_borrow`, and a copy of what it lends: the buffer as it is now, or an
/// empty buffer while another use has taken the buffer to change it.
#[verifier::external_body]
fn read_cell(cell: &RefCell<Buffer>) -> Buffer {
    cell.try_borrow().map(|b| b.clone()).unwrap_or_default()
}

/// `RefCell::try_borrow_mut`, written through: the buffer in the cell becomes `buffer`,
/// unless another use has taken it.
#[verifier::external_body]
fn write_cell(cell: &RefCell<Buffer>, buffer: Buffer) {
    if let Ok(mut b) = cell.try_borrow_mut() {
        *b = buffer;
    }
}

/// A buffer with several owners. Each use of it takes the buffer for as long as the use
/// lasts and no longer.
pub struct SharedBuffer {
    inner: Rc<RefCell<Buffer>>,
}

impl SharedBuffer {
    /// A copy of the buffer as it is now; an empty buffer while another use has taken the
    /// buffer to change it.
    pub fn snapshot(&self) -> Buffer {
        read_cell(&self.inner)
    }

    /// Replaces the buffer, unless another use has taken it.
    pub fn store(&self, buffer: Buffer) {
        write_cell(&self.inner, buffer)
    }

    /// Another owner of the same buffer.
    pub fn share(&self) -> (r: SharedBuffer)
        ensures
            r == *self,
    {
        SharedBuffer { inner: clone_rc(&self.inner) }
    }
}

impl Clone for SharedBuffer {
    fn clone(&self) -> (r: SharedBuffer)
        ensures
            r == *self,
    {
        self.share()
    }
}

/// Takes a buffer into shared ownership.
pub fn ref_count(buffer: Buffer) -> SharedBuffer {
    SharedBuffer { inner: Rc::new(RefCell::new(buffer)) }
}

} // verus!
