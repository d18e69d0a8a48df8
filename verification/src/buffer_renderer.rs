//! Copying a region of one buffer onto another, clipped on every side, and writing a
//! buffer out as text with ANSI escape codes.

use vstd::prelude::*;
use vstd::arithmetic::div_mod::{lemma_fundamental_div_mod, lemma_fundamental_div_mod_converse};
use ratatui::buffer::Buffer;
use ratatui::layout::{Offset, Position, Rect};
use ratatui::style::Color;
use vstd::string::StringExecFns;
use crate::cell::{
    Modifier,
    Style,
    BOLD,
    CROSSED_OUT,
    DIM,
    HIDDEN,
    ITALIC,
    RAPID_BLINK,
    REVERSED,
    SLOW_BLINK,
    UNDERLINED,
};
use crate::text::{decimal, decimal_string};
use crate::buffer::{
    SharedBuffer,
    area_of,
    buffer_area,
    buffer_cells,
    cell_at,
    cell_index,
    cell_of,
    has_cell,
    lemma_cell_index_injective,
    put_cell,
};
use crate::cell::CellView;
use crate::geometry::{
    bottom_of,
    capped_diff,
    capped_sum,
    contains_position,
    intersection_of,
    positions_of,
    right_of,
};

verus! {

/// How many cells a negative offset cuts off at the start.
pub open spec fn cut_by(offset: i32) -> u16 {
    if offset >= 0 {
        0
    } else if offset <= -65535 {
        65535
    } else {
        (-offset) as u16
    }
}

/// How far a positive offset moves the first cell.
pub open spec fn shift_by(offset: i32) -> u16 {
    if offset <= 0 {
        0
    } else if offset >= 65535 {
        65535
    } else {
        offset as u16
    }
}

/// What remains of `len` cells, placed at `offset`, within `room` cells.
pub open spec fn clipped_len(len: u16, room: u16, offset: i32) -> u16 {
    let kept = capped_diff(len, cut_by(offset));
    let free = capped_diff(room, shift_by(offset));
    if kept <= free {
        kept
    } else {
        free
    }
}

/// The columns of the area that positions can name.
pub open spec fn columns_of(area: Rect) -> u16 {
    capped_diff(right_of(area), area.x)
}

/// The rows of the area that positions can name.
pub open spec fn rows_of(area: Rect) -> u16 {
    capped_diff(bottom_of(area), area.y)
}

/// The column and row of the source whose cell a copy puts at the destination position
/// `q`: the corner of `region` lands `offset` cells from the corner of the destination.
pub open spec fn source_of(region: Rect, dst_area: Rect, offset: Offset, q: Position) -> (
    int,
    int,
) {
    (region.x + (q.x - dst_area.x) - offset.x, region.y + (q.y - dst_area.y) - offset.y)
}

/// Whether the column and row lie in the region.
pub open spec fn in_region(region: Rect, s: (int, int)) -> bool {
    region.x <= s.0 < region.x + region.width && region.y <= s.1 < region.y + region.height
}

/// The cell that a copy leaves at the destination position `q`, which held `before`.
///
/// It is the source's cell, where `q` lies under the part of `src_region` that the source
/// has, and that cell is not marked to be skipped; everywhere else it is `before`.
pub open spec fn blit_at(
    src_cells: Seq<CellView>,
    src_area: Rect,
    src_region: Rect,
    before: CellView,
    dst_area: Rect,
    offset: Offset,
    q: Position,
) -> CellView {
    let region = intersection_of(src_region, src_area);
    let s = source_of(region, dst_area, offset, q);
    if contains_position(dst_area, q) && in_region(region, s) {
        match cell_at(src_cells, src_area, Position { x: s.0 as u16, y: s.1 as u16 }) {
            Some(c) => if c.skip {
                before
            } else {
                c
            },
            None => before,
        }
    } else {
        before
    }
}

/// Whether `after` is what a copy of the part of `src` under `src_region`, placed `offset`
/// cells from the corner, leaves of `before`.
pub open spec fn is_blitted(
    src: Buffer,
    src_region: Rect,
    before: Buffer,
    after: Buffer,
    offset: Offset,
) -> bool {
    &&& buffer_area(after) == buffer_area(before)
    &&& buffer_cells(after).len() == buffer_cells(before).len()
    &&& forall|q: Position|
        has_cell(buffer_cells(before).len(), buffer_area(before), q) ==> buffer_cells(
            after,
        )[#[trigger] cell_index(buffer_area(before), q)] == blit_at(
            buffer_cells(src),
            buffer_area(src),
            src_region,
            buffer_cells(before)[cell_index(buffer_area(before), q)],
            buffer_area(before),
            offset,
            q,
        )
    &&& forall|j: int|
        0 <= j < buffer_cells(before).len() && !addressed(
            buffer_cells(before).len(),
            buffer_area(before),
            j,
        ) ==> #[trigger] buffer_cells(after)[j] == buffer_cells(before)[j]
}

/// Whether some position names the `j`-th cell of a buffer of `len` cells over `area`.
pub open spec fn addressed(len: nat, area: Rect, j: int) -> bool {
    exists|q: Position| has_cell(len, area, q) && #[trigger] cell_index(area, q) == j
}

/// The source and destination rectangles of a copy, cut down to what overlaps.
struct ClipRegion {
    src: Rect,
    dst: Rect,
}

/// How many cells a negative offset cuts off at the start.
fn cut_of(offset: i32) -> (n: u16)
    ensures
        n == cut_by(offset),
{
    if offset >= 0 {
        0
    } else if offset <= -65535 {
        65535
    } else {
        (-offset) as u16
    }
}

/// How far a positive offset moves the first cell.
fn shift_of(offset: i32) -> (n: u16)
    ensures
        n == shift_by(offset),
{
    if offset <= 0 {
        0
    } else if offset >= 65535 {
        65535
    } else {
        offset as u16
    }
}

/// What remains of `len` cells, placed at `offset`, within `room` cells.
fn clip_len(len: u16, room: u16, offset: i32) -> (n: u16)
    ensures
        n == clipped_len(len, room, offset),
{
    let kept: u16 = len.saturating_sub(cut_of(offset));
    let free: u16 = room.saturating_sub(shift_of(offset));
    if kept <= free {
        kept
    } else {
        free
    }
}

impl ClipRegion {
    /// The overlap of `src_region`, placed `dst_offset` cells from the corner of
    /// `dst_bounds`, with `dst_bounds`.
    spec fn of(src_region: Rect, dst_bounds: Rect, dst_offset: Offset) -> ClipRegion {
        let width = clipped_len(src_region.width, columns_of(dst_bounds), dst_offset.x);
        let height = clipped_len(src_region.height, rows_of(dst_bounds), dst_offset.y);
        ClipRegion {
            src: Rect {
                x: capped_sum(src_region.x, cut_by(dst_offset.x)),
                y: capped_sum(src_region.y, cut_by(dst_offset.y)),
                width,
                height,
            },
            dst: Rect {
                x: capped_sum(dst_bounds.x, shift_by(dst_offset.x)),
                y: capped_sum(dst_bounds.y, shift_by(dst_offset.y)),
                width,
                height,
            },
        }
    }

    /// Whether the destination position lies in the destination rectangle.
    spec fn covers(self, q: Position) -> bool {
        self.dst.x <= q.x < self.dst.x + self.dst.width && self.dst.y <= q.y < self.dst.y
            + self.dst.height
    }

    /// The place of a covered position in the order of the copy.
    spec fn rank(self, q: Position) -> int {
        (q.y - self.dst.y) * self.dst.width + (q.x - self.dst.x)
    }

    fn new(src_region: Rect, dst_bounds: Rect, dst_offset: Offset) -> (clip: ClipRegion)
        ensures
            clip == ClipRegion::of(src_region, dst_bounds, dst_offset),
    {
        let x_offset: u16 = cut_of(dst_offset.x);
        let y_offset: u16 = cut_of(dst_offset.y);
        let columns: u16 = dst_bounds.x.saturating_add(dst_bounds.width) - dst_bounds.x;
        let rows: u16 = dst_bounds.y.saturating_add(dst_bounds.height) - dst_bounds.y;
        let width: u16 = clip_len(src_region.width, columns, dst_offset.x);
        let height: u16 = clip_len(src_region.height, rows, dst_offset.y);
        ClipRegion {
            src: Rect {
                x: src_region.x.saturating_add(x_offset),
                y: src_region.y.saturating_add(y_offset),
                width,
                height,
            },
            dst: Rect {
                x: dst_bounds.x.saturating_add(shift_of(dst_offset.x)),
                y: dst_bounds.y.saturating_add(shift_of(dst_offset.y)),
                width,
                height,
            },
        }
    }

    fn is_valid(&self) -> (r: bool)
        ensures
            r == (self.src.width > 0 && self.src.height > 0),
    {
        assert(self.src.width * self.src.height > 0 <==> self.src.width > 0 && self.src.height > 0)
            by (nonlinear_arith);
        self.src.area() > 0
    }

    fn width(&self) -> (w: u16)
        ensures
            w == self.src.width,
    {
        self.src.width
    }

    fn height(&self) -> (h: u16)
        ensures
            h == self.src.height,
    {
        self.src.height
    }

    fn normalized_positions(&self) -> (v: Vec<Position>)
        requires
            self.src.width > 0,
            self.src.height > 0,
        ensures
            v@.len() == self.src.width * self.src.height,
            forall|k: int|
                0 <= k < v@.len() ==> #[trigger] v@[k] == (Position {
                    x: (k % (self.src.width as int)) as u16,
                    y: (k / (self.src.width as int)) as u16,
                }),
    {
        positions_of(Rect { x: 0, y: 0, width: self.width(), height: self.height() })
    }

    fn src_pos(&self, pos: Position) -> (p: Position)
        requires
            self.src.x + pos.x <= u16::MAX,
            self.src.y + pos.y <= u16::MAX,
        ensures
            p.x == self.src.x + pos.x,
            p.y == self.src.y + pos.y,
    {
        Position { x: self.src.x + pos.x, y: self.src.y + pos.y }
    }

    fn dst_pos(&self, pos: Position) -> (p: Position)
        requires
            self.dst.x + pos.x <= u16::MAX,
            self.dst.y + pos.y <= u16::MAX,
        ensures
            p.x == self.dst.x + pos.x,
            p.y == self.dst.y + pos.y,
    {
        Position { x: self.dst.x + pos.x, y: self.dst.y + pos.y }
    }
}

/// Along one axis: the destination coordinate `q` lies under the placed region exactly
/// when it lies in the clipped destination range, and then its source coordinate is its
/// place in that range, counted from the clipped source start.
proof fn lemma_clip_axis(start: u16, len: u16, origin: u16, room: u16, offset: i32, q: u16)
    requires
        start + len <= u16::MAX,
        origin + room <= u16::MAX,
    ensures
        ({
            let n = clipped_len(len, room, offset);
            let from = capped_sum(origin, shift_by(offset));
            let s = start + (q - origin) - offset;
            &&& (origin <= q < origin + room && start <= s < start + len) <==> (from <= q < from
                + n)
            &&& n > 0 ==> from == origin + shift_by(offset) && capped_sum(start, cut_by(offset))
                == start + cut_by(offset) && from + n <= origin + room && start + cut_by(offset)
                + n <= start + len
            &&& from <= q < from + n ==> s == start + cut_by(offset) + (q - from)
        }),
{
}

/// A destination position lies under the source region exactly when the clipped
/// destination rectangle covers it, and then its source is its counterpart in the
/// clipped source rectangle.
proof fn lemma_clip_covers(region: Rect, dst_area: Rect, offset: Offset, q: Position)
    requires
        region.x + region.width <= u16::MAX,
        region.y + region.height <= u16::MAX,
    ensures
        ({
            let clip = ClipRegion::of(region, dst_area, offset);
            let s = source_of(region, dst_area, offset, q);
            &&& (contains_position(dst_area, q) && in_region(region, s)) <==> clip.covers(q)
            &&& clip.covers(q) ==> s.0 == clip.src.x + (q.x - clip.dst.x) && s.1 == clip.src.y + (
            q.y - clip.dst.y)
            &&& clip.src.width > 0 && clip.src.height > 0 ==> clip.dst.x + clip.dst.width
                <= right_of(dst_area) && clip.dst.y + clip.dst.height <= bottom_of(dst_area)
                && clip.src.x + clip.src.width <= region.x + region.width && clip.src.y
                + clip.src.height <= region.y + region.height && clip.src.x >= region.x
                && clip.src.y >= region.y && clip.dst.x >= dst_area.x && clip.dst.y >= dst_area.y
        }),
{
    lemma_clip_axis(region.x, region.width, dst_area.x, columns_of(dst_area), offset.x, q.x);
    lemma_clip_axis(region.y, region.height, dst_area.y, rows_of(dst_area), offset.y, q.y);
}

/// The intersection of two rectangles ends within the coordinate space.
proof fn lemma_intersection_fits(a: Rect, b: Rect)
    ensures
        intersection_of(a, b).x + intersection_of(a, b).width <= u16::MAX,
        intersection_of(a, b).y + intersection_of(a, b).height <= u16::MAX,
{
}

/// A copy whose region, once placed, does not meet the destination leaves every cell of
/// the destination as it was.
pub proof fn lemma_blit_outside(
    src_cells: Seq<CellView>,
    src_area: Rect,
    src_region: Rect,
    before: CellView,
    dst_area: Rect,
    offset: Offset,
    q: Position,
)
    requires
        ({
            let region = intersection_of(src_region, src_area);
            ||| region.width == 0
            ||| region.height == 0
            ||| offset.x >= columns_of(dst_area)
            ||| offset.y >= rows_of(dst_area)
            ||| offset.x + region.width <= 0
            ||| offset.y + region.height <= 0
        }),
    ensures
        blit_at(src_cells, src_area, src_region, before, dst_area, offset, q) == before,
{
}

/// A copy of a whole source onto a destination of the same size, with no offset, puts
/// each source cell at its own place in the destination, except the cells marked to be
/// skipped, where the destination keeps what it had.
pub proof fn lemma_blit_whole(
    src_cells: Seq<CellView>,
    src_area: Rect,
    before: CellView,
    dst_area: Rect,
    q: Position,
)
    requires
        src_area.width == dst_area.width,
        src_area.height == dst_area.height,
        src_area.x + src_area.width <= u16::MAX,
        src_area.y + src_area.height <= u16::MAX,
        src_cells.len() == src_area.width * src_area.height,
        contains_position(dst_area, q),
    ensures
        ({
            let j = cell_index(dst_area, q);
            &&& 0 <= j < src_cells.len()
            &&& blit_at(
                src_cells,
                src_area,
                src_area,
                before,
                dst_area,
                Offset { x: 0, y: 0 },
                q,
            ) == if src_cells[j].skip {
                before
            } else {
                src_cells[j]
            }
        }),
{
    let (w, h) = (src_area.width as int, src_area.height as int);
    let (a, b) = (q.y - dst_area.y, q.x - dst_area.x);
    assert(0 <= a * w + b < w * h) by (nonlinear_arith)
        requires
            0 <= a < h,
            0 <= b < w,
    ;
    let s = Position { x: (src_area.x + b) as u16, y: (src_area.y + a) as u16 };
    assert(cell_index(src_area, s) == a * w + b);
}

/// Something that can paint itself onto a buffer.
pub trait BufferRenderer {
    /// Paints the whole of `self` onto `buf`, its corner `offset` cells from the corner of
    /// `buf`. The area of `buf` and the number of its cells stay as they are.
    fn render_buffer(&self, offset: Offset, buf: &mut Buffer)
        ensures
            buffer_area(*final(buf)) == buffer_area(*old(buf)),
            buffer_cells(*final(buf)).len() == buffer_cells(*old(buf)).len(),
    ;

    /// Paints the part of `self` under `src_region` onto `buf`, the corner of that part
    /// `offset` cells from the corner of `buf`. The area of `buf` and the number of its
    /// cells stay as they are.
    fn render_buffer_region(&self, src_region: Rect, offset: Offset, buf: &mut Buffer)
        ensures
            buffer_area(*final(buf)) == buffer_area(*old(buf)),
            buffer_cells(*final(buf)).len() == buffer_cells(*old(buf)).len(),
    ;
}

impl BufferRenderer for Buffer {
    fn render_buffer(&self, offset: Offset, buf: &mut Buffer)
        ensures
            forall|q: Position|
                has_cell(buffer_cells(*old(buf)).len(), buffer_area(*old(buf)), q)
                    ==> buffer_cells(*final(buf))[#[trigger] cell_index(buffer_area(*old(buf)), q)]
                    == blit_at(
                    buffer_cells(*self),
                    buffer_area(*self),
                    buffer_area(*self),
                    buffer_cells(*old(buf))[cell_index(buffer_area(*old(buf)), q)],
                    buffer_area(*old(buf)),
                    offset,
                    q,
                ),
            forall|j: int|
                0 <= j < buffer_cells(*old(buf)).len() && !addressed(
                    buffer_cells(*old(buf)).len(),
                    buffer_area(*old(buf)),
                    j,
                ) ==> #[trigger] buffer_cells(*final(buf))[j] == buffer_cells(*old(buf))[j],
    {
        blit_buffer(self, buf, offset);
    }

    fn render_buffer_region(&self, src_region: Rect, offset: Offset, buf: &mut Buffer)
        ensures
            forall|q: Position|
                has_cell(buffer_cells(*old(buf)).len(), buffer_area(*old(buf)), q)
                    ==> buffer_cells(*final(buf))[#[trigger] cell_index(buffer_area(*old(buf)), q)]
                    == blit_at(
                    buffer_cells(*self),
                    buffer_area(*self),
                    src_region,
                    buffer_cells(*old(buf))[cell_index(buffer_area(*old(buf)), q)],
                    buffer_area(*old(buf)),
                    offset,
                    q,
                ),
            forall|j: int|
                0 <= j < buffer_cells(*old(buf)).len() && !addressed(
                    buffer_cells(*old(buf)).len(),
                    buffer_area(*old(buf)),
                    j,
                ) ==> #[trigger] buffer_cells(*final(buf))[j] == buffer_cells(*old(buf))[j],
    {
        blit_buffer_region(self, src_region, buf, offset);
    }
}

impl BufferRenderer for SharedBuffer {
    /// Paints the shared buffer, as it is now, onto `buf`.
    fn render_buffer(&self, offset: Offset, buf: &mut Buffer)
        ensures
            exists|source: Buffer|
                #[trigger] is_blitted(source, buffer_area(source), *old(buf), *final(buf), offset),
    {
        let source = self.snapshot();
        blit_buffer(&source, buf, offset);
        assert(is_blitted(source, buffer_area(source), *old(buf), *buf, offset));
    }

    /// Paints the part of the shared buffer under `src_region`, as it is now, onto `buf`.
    fn render_buffer_region(&self, src_region: Rect, offset: Offset, buf: &mut Buffer)
        ensures
            exists|source: Buffer|
                #[trigger] is_blitted(source, src_region, *old(buf), *final(buf), offset),
    {
        let source = self.snapshot();
        blit_buffer_region(&source, src_region, buf, offset);
        assert(is_blitted(source, src_region, *old(buf), *buf, offset));
    }
}

/// Copies the whole of `src` onto `dst`, its corner `offset` cells from the corner of
/// `dst`.
///
/// See [`blit_buffer_region`].
pub fn blit_buffer(src: &Buffer, dst: &mut Buffer, offset: Offset)
    ensures
        is_blitted(*src, buffer_area(*src), *old(dst), *final(dst), offset),
        buffer_area(*final(dst)) == buffer_area(*old(dst)),
        buffer_cells(*final(dst)).len() == buffer_cells(*old(dst)).len(),
        forall|q: Position|
            has_cell(buffer_cells(*old(dst)).len(), buffer_area(*old(dst)), q) ==> buffer_cells(
                *final(dst),
            )[#[trigger] cell_index(buffer_area(*old(dst)), q)] == blit_at(
                buffer_cells(*src),
                buffer_area(*src),
                buffer_area(*src),
                buffer_cells(*old(dst))[cell_index(buffer_area(*old(dst)), q)],
                buffer_area(*old(dst)),
                offset,
                q,
            ),
        forall|j: int|
            0 <= j < buffer_cells(*old(dst)).len() && !addressed(
                buffer_cells(*old(dst)).len(),
                buffer_area(*old(dst)),
                j,
            ) ==> #[trigger] buffer_cells(*final(dst))[j] == buffer_cells(*old(dst))[j],
{
    blit_buffer_region(src, area_of(src), dst, offset);
}

/// Copies the part of `src` under `src_region` onto `dst`, the corner of that part
/// `offset` cells from the corner of `dst`.
///
/// The region is cut down to the area of `src`, and what falls outside `dst` is left
/// out. A source cell marked to be skipped is not copied: the destination keeps its cell.
/// Where nothing overlaps, nothing changes.
pub fn blit_buffer_region(src: &Buffer, src_region: Rect, dst: &mut Buffer, offset: Offset)
    ensures
        is_blitted(*src, src_region, *old(dst), *final(dst), offset),
        buffer_area(*final(dst)) == buffer_area(*old(dst)),
        buffer_cells(*final(dst)).len() == buffer_cells(*old(dst)).len(),
        forall|q: Position|
            has_cell(buffer_cells(*old(dst)).len(), buffer_area(*old(dst)), q) ==> buffer_cells(
                *final(dst),
            )[#[trigger] cell_index(buffer_area(*old(dst)), q)] == blit_at(
                buffer_cells(*src),
                buffer_area(*src),
                src_region,
                buffer_cells(*old(dst))[cell_index(buffer_area(*old(dst)), q)],
                buffer_area(*old(dst)),
                offset,
                q,
            ),
        forall|j: int|
            0 <= j < buffer_cells(*old(dst)).len() && !addressed(
                buffer_cells(*old(dst)).len(),
                buffer_area(*old(dst)),
                j,
            ) ==> #[trigger] buffer_cells(*final(dst))[j] == buffer_cells(*old(dst))[j],
{
    let src_area = area_of(src);
    let dst_area = area_of(dst);
    // clip source region to source buffer bounds
    let region = src_region.intersection(src_area);
    let clip = ClipRegion::new(region, dst_area, offset);
    let ghost before = buffer_cells(*dst);
    let ghost from = buffer_cells(*src);
    proof {
        lemma_intersection_fits(src_region, src_area);
        assert forall|q: Position| has_cell(before.len(), dst_area, q) implies (clip.covers(q)
            <==> contains_position(dst_area, q) && in_region(
            region,
            source_of(region, dst_area, offset, q),
        )) by {
            lemma_clip_covers(region, dst_area, offset, q);
        }
    }
    if !clip.is_valid() {
        return ;  // zero area or out of bounds
    }
    proof {
        lemma_clip_covers(region, dst_area, offset, Position { x: 0, y: 0 });
    }
    // copy non-skipped cells from clipped source region to destination buffer
    let positions = clip.normalized_positions();
    let mut k: usize = 0;
    while k < positions.len()
        invariant
            0 <= k <= positions@.len(),
            clip == ClipRegion::of(region, dst_area, offset),
            region == intersection_of(src_region, src_area),
            src_area == buffer_area(*src),
            from == buffer_cells(*src),
            clip.src.width > 0,
            clip.src.height > 0,
            clip.dst.x + clip.dst.width <= right_of(dst_area),
            clip.dst.y + clip.dst.height <= bottom_of(dst_area),
            clip.dst.x >= dst_area.x,
            clip.dst.y >= dst_area.y,
            clip.src.x + clip.src.width <= region.x + region.width,
            clip.src.y + clip.src.height <= region.y + region.height,
            region.x + region.width <= u16::MAX,
            region.y + region.height <= u16::MAX,
            positions@.len() == clip.src.width * clip.src.height,
            forall|i: int|
                0 <= i < positions@.len() ==> #[trigger] positions@[i] == (Position {
                    x: (i % (clip.src.width as int)) as u16,
                    y: (i / (clip.src.width as int)) as u16,
                }),
            buffer_area(*dst) == dst_area,
            buffer_cells(*dst).len() == before.len(),
            forall|q: Position|
                has_cell(before.len(), dst_area, q) ==> (clip.covers(q) <==> contains_position(
                    dst_area,
                    q,
                ) && in_region(region, source_of(region, dst_area, offset, q))),
            forall|q: Position|
                has_cell(before.len(), dst_area, q) ==> buffer_cells(*dst)[#[trigger] cell_index(
                    dst_area,
                    q,
                )] == if clip.covers(q) && clip.rank(q) < k {
                    blit_at(
                        from,
                        src_area,
                        src_region,
                        before[cell_index(dst_area, q)],
                        dst_area,
                        offset,
                        q,
                    )
                } else {
                    before[cell_index(dst_area, q)]
                },
            forall|j: int|
                0 <= j < before.len() && !addressed(before.len(), dst_area, j)
                    ==> #[trigger] buffer_cells(*dst)[j] == before[j],
        decreases positions@.len() - k,
    {
        let p = positions[k];
        let ghost w = clip.src.width as int;
        proof {
            lemma_fundamental_div_mod(k as int, w);
            assert(0 <= (k as int) % w < w);
            assert(0 <= (k as int) / w < clip.src.height) by (nonlinear_arith)
                requires
                    0 <= k < w * clip.src.height,
                    w > 0,
                    k == w * ((k as int) / w) + (k as int) % w,
                    0 <= (k as int) % w < w,
            ;
            assert(positions@[k as int] == p);
        }
        let sp = clip.src_pos(p);
        let dp = clip.dst_pos(p);
        let ghost cells = buffer_cells(*dst);
        proof {
            assert(clip.covers(dp));
            assert(clip.rank(dp) == k) by (nonlinear_arith)
                requires
                    clip.rank(dp) == (p.y as int) * w + (p.x as int),
                    k == w * ((k as int) / w) + (k as int) % w,
                    p.x == (k as int) % w,
                    p.y == (k as int) / w,
            ;
            lemma_clip_covers(region, dst_area, offset, dp);
            assert(contains_position(dst_area, dp));
        }
        match cell_of(src, sp) {
            Some(c) => {
                if !c.skip {
                    put_cell(dst, dp, &c);
                }
            },
            None => {},
        }
        proof {
            let now = buffer_cells(*dst);
            assert forall|q: Position| has_cell(before.len(), dst_area, q) implies now[
                #[trigger] cell_index(dst_area, q)
            ] == if clip.covers(q) && clip.rank(q) < k + 1 {
                blit_at(
                    from,
                    src_area,
                    src_region,
                    before[cell_index(dst_area, q)],
                    dst_area,
                    offset,
                    q,
                )
            } else {
                before[cell_index(dst_area, q)]
            } by {
                if q == dp {
                } else {
                    if has_cell(before.len(), dst_area, dp) {
                        if cell_index(dst_area, q) == cell_index(dst_area, dp) {
                            lemma_cell_index_injective(dst_area, q, dp);
                        }
                    }
                    if clip.covers(q) && clip.rank(q) == k {
                        let (a, b) = (q.y - clip.dst.y, q.x - clip.dst.x);
                        lemma_fundamental_div_mod_converse(k as int, w, a, b);
                    }
                }
            }
            assert forall|j: int|
                0 <= j < before.len() && !addressed(before.len(), dst_area, j) implies #[trigger] now[j]
                == before[j] by {
                if has_cell(before.len(), dst_area, dp) {
                    assert(addressed(before.len(), dst_area, cell_index(dst_area, dp)));
                }
            }
        }
        k = k + 1;
    }
    proof {
        let now = buffer_cells(*dst);
        assert forall|q: Position| has_cell(before.len(), dst_area, q) implies now[
            #[trigger] cell_index(dst_area, q)
        ] == blit_at(
            from,
            src_area,
            src_region,
            before[cell_index(dst_area, q)],
            dst_area,
            offset,
            q,
        ) by {
            if clip.covers(q) {
                let (a, b) = (q.y - clip.dst.y, q.x - clip.dst.x);
                let (w, h) = (clip.dst.width as int, clip.dst.height as int);
                assert(a * w + b < w * h) by (nonlinear_arith)
                    requires
                        0 <= a < h,
                        0 <= b < w,
                ;
            }
        }
    }
}

/// The number of a named color in the palette of 16; `None` for the other colors.
pub open spec fn palette_index(color: Color) -> Option<u8> {
    match color {
        Color::Black => Some(0u8),
        Color::Red => Some(1u8),
        Color::Green => Some(2u8),
        Color::Yellow => Some(3u8),
        Color::Blue => Some(4u8),
        Color::Magenta => Some(5u8),
        Color::Cyan => Some(6u8),
        Color::Gray => Some(7u8),
        Color::DarkGray => Some(8u8),
        Color::LightRed => Some(9u8),
        Color::LightGreen => Some(10u8),
        Color::LightYellow => Some(11u8),
        Color::LightBlue => Some(12u8),
        Color::LightMagenta => Some(13u8),
        Color::LightCyan => Some(14u8),
        Color::White => Some(15u8),
        Color::Indexed(i) => Some(i),
        Color::Reset => None,
        Color::Rgb(_, _, _) => None,
    }
}

/// The escape code that selects a color, for the foreground or for the background.
pub open spec fn color_code_text(color: Color, foreground: bool) -> Seq<char> {
    let base = if foreground {
        "38"@
    } else {
        "48"@
    };
    match color {
        Color::Reset => "\x1b[0m"@,
        Color::Rgb(r, g, b) => "\x1b["@ + base + ";2;"@ + decimal(r as nat) + ";"@ + decimal(
            g as nat,
        ) + ";"@ + decimal(b as nat) + "m"@,
        _ => "\x1b["@ + base + ";5;"@ + decimal(palette_index(color).unwrap() as nat) + "m"@,
    }
}

/// The escape code of a color of a style: none where the style names no color, or the
/// terminal's own.
pub open spec fn style_color_text(color: Option<Color>, foreground: bool) -> Seq<char> {
    match color {
        Some(c) => if c == Color::Reset {
            Seq::<char>::empty()
        } else {
            color_code_text(c, foreground)
        },
        None => Seq::<char>::empty(),
    }
}

/// `code` where the attribute is set, nothing where it is not.
pub open spec fn flag_text(modifier: Modifier, flag: u16, code: Seq<char>) -> Seq<char> {
    if modifier.has(flag) {
        code
    } else {
        Seq::<char>::empty()
    }
}

/// The escape codes of the attributes that are set, in the order of their numbers.
pub open spec fn modifier_text(m: Modifier) -> Seq<char> {
    flag_text(m, BOLD, "\x1b[1m"@) + flag_text(m, DIM, "\x1b[2m"@) + flag_text(
        m,
        ITALIC,
        "\x1b[3m"@,
    ) + flag_text(m, UNDERLINED, "\x1b[4m"@) + flag_text(m, SLOW_BLINK, "\x1b[5m"@) + flag_text(
        m,
        RAPID_BLINK,
        "\x1b[6m"@,
    ) + flag_text(m, REVERSED, "\x1b[7m"@) + flag_text(m, HIDDEN, "\x1b[8m"@) + flag_text(
        m,
        CROSSED_OUT,
        "\x1b[9m"@,
    )
}

/// The escape codes that switch a terminal to a style: foreground, background, then the
/// attributes that the style adds.
pub open spec fn escape_code_text(style: Style) -> Seq<char> {
    style_color_text(style.fg, true) + style_color_text(style.bg, false) + modifier_text(
        style.add_modifier,
    )
}

/// The style that a line of text starts in.
pub open spec fn plain_style() -> Style {
    Style {
        fg: None,
        bg: None,
        add_modifier: Modifier { bits: 0 },
        sub_modifier: Modifier { bits: 0 },
    }
}

/// The text of the first `n` cells of the row `y`, and the style that the last of them
/// left the terminal in.
///
/// A cell whose look differs from the style in force is preceded by a reset and by the
/// escape codes of its look.
pub open spec fn ansi_row_text(cells: Seq<CellView>, area: Rect, y: u16, n: int) -> (
    Seq<char>,
    Style,
)
    decreases n,
{
    if n <= 0 {
        (Seq::<char>::empty(), plain_style())
    } else {
        let (text, style) = ansi_row_text(cells, area, y, n - 1);
        match cell_at(cells, area, Position { x: (area.x + n - 1) as u16, y }) {
            Some(c) => if c.look() != style {
                (text + "\x1b[0m"@ + escape_code_text(c.look()) + c.symbol, c.look())
            } else {
                (text + c.symbol, style)
            },
            None => (text, style),
        }
    }
}

/// The text of the first `m` rows: each row's cells, a reset, and a line feed.
pub open spec fn ansi_text(cells: Seq<CellView>, area: Rect, m: int) -> Seq<char>
    decreases m,
{
    if m <= 0 {
        Seq::<char>::empty()
    } else {
        ansi_text(cells, area, m - 1) + ansi_row_text(
            cells,
            area,
            (area.y + m - 1) as u16,
            columns_of(area) as int,
        ).0 + "\x1b[0m"@ + "\n"@
    }
}

/// Whether two colors that a style may name are the same.
fn same_color(a: Option<Color>, b: Option<Color>) -> (r: bool)
    ensures
        r == (a == b),
{
    match (a, b) {
        (Some(x), Some(y)) => x == y,
        (None, None) => true,
        _ => false,
    }
}

/// Whether two styles are the same.
fn same_style(a: &Style, b: &Style) -> (r: bool)
    ensures
        r == (*a == *b),
{
    same_color(a.fg, b.fg) && same_color(a.bg, b.bg) && a.add_modifier.bits
        == b.add_modifier.bits && a.sub_modifier.bits == b.sub_modifier.bits
}

/// Writes a buffer out as text: a line for each row of its area, the cells' symbols in
/// their order, with ANSI escape codes wherever the look changes and a reset at the end
/// of each line.
pub fn render_as_ansi_string(buffer: &Buffer) -> (s: String)
    ensures
        s@ == ansi_text(
            buffer_cells(*buffer),
            buffer_area(*buffer),
            rows_of(buffer_area(*buffer)) as int,
        ),
{
    let area = area_of(buffer);
    let columns: u16 = area.x.saturating_add(area.width) - area.x;
    let rows: u16 = area.y.saturating_add(area.height) - area.y;
    let ghost cells = buffer_cells(*buffer);
    let mut s = String::new();
    let mut y: u16 = 0;
    while y < rows
        invariant
            0 <= y <= rows,
            rows == rows_of(area),
            columns == columns_of(area),
            area == buffer_area(*buffer),
            cells == buffer_cells(*buffer),
            s@ == ansi_text(cells, area, y as int),
        decreases rows - y,
    {
        let mut line = String::new();
        let mut style = Style::new();
        let mut x: u16 = 0;
        while x < columns
            invariant
                0 <= x <= columns,
                y < rows,
                rows == rows_of(area),
                columns == columns_of(area),
                area == buffer_area(*buffer),
                cells == buffer_cells(*buffer),
                (line@, style) == ansi_row_text(cells, area, (area.y + y) as u16, x as int),
            decreases columns - x,
        {
            if let Some(cell) = cell_of(buffer, Position { x: area.x + x, y: area.y + y }) {
                let look = cell.style();
                if !same_style(&look, &style) {
                    line.append("\x1b[0m");  // reset
                    line.append(escape_code_of(look).as_str());
                    style = look;
                }
                line.append(cell.symbol());
            }
            x = x + 1;
        }
        s.append(line.as_str());
        s.append("\x1b[0m");
        // the style is reset at the end of each line, so that the next line starts plain
        s.append("\n");
        y = y + 1;
    }
    s
}

/// The escape codes that switch a terminal to a style.
fn escape_code_of(style: Style) -> (result: String)
    ensures
        result@ == escape_code_text(style),
{
    let mut result = String::new();
    // Foreground color
    if let Some(color) = style.fg {
        if color != Color::Reset {
            result.append(color_code(color, true).as_str());
        }
    }
    assert(result@ =~= style_color_text(style.fg, true));
    // Background color
    if let Some(color) = style.bg {
        if color != Color::Reset {
            result.append(color_code(color, false).as_str());
        }
    }
    assert(result@ =~= style_color_text(style.fg, true) + style_color_text(style.bg, false));
    // Modifiers
    let ghost colors = result@;
    let m = style.add_modifier;
    let mut codes = String::new();
    if m.contains(BOLD) {
        codes.append("\x1b[1m");
    }
    if m.contains(DIM) {
        codes.append("\x1b[2m");
    }
    if m.contains(ITALIC) {
        codes.append("\x1b[3m");
    }
    if m.contains(UNDERLINED) {
        codes.append("\x1b[4m");
    }
    if m.contains(SLOW_BLINK) {
        codes.append("\x1b[5m");
    }
    if m.contains(RAPID_BLINK) {
        codes.append("\x1b[6m");
    }
    if m.contains(REVERSED) {
        codes.append("\x1b[7m");
    }
    if m.contains(HIDDEN) {
        codes.append("\x1b[8m");
    }
    if m.contains(CROSSED_OUT) {
        codes.append("\x1b[9m");
    }
    assert(codes@ =~= modifier_text(m));
    result.append(codes.as_str());
    result
}

/// The number of a named color in the palette of 16, or the number of an indexed color.
fn palette_number(color: Color) -> (n: Option<u8>)
    ensures
        n == palette_index(color),
{
    match color {
        Color::Black => Some(0),
        Color::Red => Some(1),
        Color::Green => Some(2),
        Color::Yellow => Some(3),
        Color::Blue => Some(4),
        Color::Magenta => Some(5),
        Color::Cyan => Some(6),
        Color::Gray => Some(7),
        Color::DarkGray => Some(8),
        Color::LightRed => Some(9),
        Color::LightGreen => Some(10),
        Color::LightYellow => Some(11),
        Color::LightBlue => Some(12),
        Color::LightMagenta => Some(13),
        Color::LightCyan => Some(14),
        Color::White => Some(15),
        Color::Indexed(i) => Some(i),
        Color::Reset => None,
        Color::Rgb(_, _, _) => None,
    }
}

/// The escape code that selects a color, for the foreground or for the background.
fn color_code(color: Color, foreground: bool) -> (code: String)
    ensures
        code@ == color_code_text(color, foreground),
{
    let base = if foreground {
        "38"
    } else {
        "48"
    };
    match color {
        Color::Reset => String::from_str("\x1b[0m"),
        Color::Rgb(r, g, b) => {
            let mut code = String::from_str("\x1b[");
            code.append(base);
            code.append(";2;");
            code.append(decimal_string(r as u16).as_str());
            code.append(";");
            code.append(decimal_string(g as u16).as_str());
            code.append(";");
            code.append(decimal_string(b as u16).as_str());
            code.append("m");
            code
        },
        _ => {
            let mut code = String::from_str("\x1b[");
            code.append(base);
            code.append(";5;");
            if let Some(n) = palette_number(color) {
                code.append(decimal_string(n as u16).as_str());
            }
            code.append("m");
            code
        },
    }
}

} // verus!
