//! How far an edge that moves across an area has passed each cell.
//!
//! The edge enters at one side of the area and leaves at the other. Behind it runs a band
//! of `gradient` cells in which a cell goes from not reached to passed. Every line of
//! cells along the motion is held back by an offset of its own, up to `spread` cells, so
//! that the edge can be ragged.

use vstd::prelude::*;
use ratatui::layout::{Position, Rect};
use crate::fx::direction::Motion;
use crate::geometry::contains_position;
use crate::interpolation::ALPHA_ONE;
use crate::simple_rng::{fraction_at, state_after, SimpleRng, FRACTION_ONE};

verus! {

/// The length of the area along the motion.
pub open spec fn axis_length(direction: Motion, area: Rect) -> u16 {
    if direction.horizontal() {
        area.width
    } else {
        area.height
    }
}

/// The number of lines of cells along the motion.
pub open spec fn line_count(direction: Motion, area: Rect) -> u16 {
    if direction.horizontal() {
        area.height
    } else {
        area.width
    }
}

/// The line of cells along the motion that the position lies on.
pub open spec fn line_of(direction: Motion, area: Rect, p: Position) -> int {
    if direction.horizontal() {
        p.y - area.y
    } else {
        p.x - area.x
    }
}

/// How many cells the position lies from the side where the edge enters.
pub open spec fn distance_of(direction: Motion, area: Rect, p: Position) -> int {
    match direction {
        Motion::LeftToRight => p.x - area.x,
        Motion::RightToLeft => area.x + area.width - 1 - p.x,
        Motion::UpToDown => p.y - area.y,
        Motion::DownToUp => area.y + area.height - 1 - p.y,
    }
}

/// The offset of the `line`-th line: the share of `spread + 1` that the `line`-th fraction
/// of a generator started from `seed` names, rounded down.
pub open spec fn offset_at(seed: u32, spread: u16, line: nat) -> u16 {
    (fraction_at(seed, line) * (spread + 1) / (FRACTION_ONE as int)) as u16
}

/// How far the edge has come at `alpha`, in units of `1 / ALPHA_ONE` cells: at alpha one
/// it has crossed the area, the band and the largest offset.
pub open spec fn front_at(length: u16, gradient: u16, spread: u16, alpha: u32) -> int {
    alpha * (length + gradient + spread)
}

/// How far the edge has passed a cell that lies `reach` cells from where the edge
/// enters, its offset included: zero where the edge has not reached it, one where the
/// band has passed it, and in between the share of the band that has.
pub open spec fn passed(front: int, gradient: u16, reach: int) -> int {
    if front <= reach * ALPHA_ONE {
        0
    } else if gradient == 0 || front - reach * ALPHA_ONE >= gradient * ALPHA_ONE {
        ALPHA_ONE as int
    } else {
        (front - reach * ALPHA_ONE) / (gradient as int)
    }
}

/// How far the edge has passed the cell at `p`, at `alpha`.
pub open spec fn window_alpha(
    direction: Motion,
    area: Rect,
    gradient: u16,
    spread: u16,
    seed: u32,
    alpha: u32,
    p: Position,
) -> int {
    passed(
        front_at(axis_length(direction, area), gradient, spread, alpha),
        gradient,
        distance_of(direction, area, p) + offset_at(
            seed,
            spread,
            line_of(direction, area, p) as nat,
        ),
    )
}

/// The window of an edge at one alpha: its measures, how far the edge has come, and the
/// offsets of the lines of the area.
pub struct SlidingWindowAlpha {
    direction: Motion,
    area: Rect,
    gradient: u16,
    spread: u16,
    seed: u32,
    progress: u32,
    front: u64,
    offsets: Vec<u16>,
}

impl SlidingWindowAlpha {
    /// The direction of the motion.
    pub closed spec fn direction(self) -> Motion {
        self.direction
    }

    /// The area that the edge crosses.
    pub closed spec fn area(self) -> Rect {
        self.area
    }

    /// The length of the band behind the edge.
    pub closed spec fn gradient(self) -> u16 {
        self.gradient
    }

    /// The largest offset of a line.
    pub closed spec fn spread(self) -> u16 {
        self.spread
    }

    /// The seed of the generator that gives the lines their offsets.
    pub closed spec fn seed(self) -> u32 {
        self.seed
    }

    /// The alpha of the edge.
    pub closed spec fn progress(self) -> u32 {
        self.progress
    }

    /// The window holds how far the edge has come, and the offset of every line.
    pub closed spec fn wf(self) -> bool {
        &&& self.progress <= ALPHA_ONE
        &&& self.front == front_at(
            axis_length(self.direction, self.area),
            self.gradient,
            self.spread,
            self.progress,
        )
        &&& self.offsets@.len() == line_count(self.direction, self.area)
        &&& forall|i: int|
            0 <= i < self.offsets@.len() ==> #[trigger] self.offsets@[i] == offset_at(
                self.seed,
                self.spread,
                i as nat,
            )
    }

    /// How far the edge has passed the cell at `p`.
    pub open spec fn alpha_at(self, p: Position) -> int {
        window_alpha(
            self.direction(),
            self.area(),
            self.gradient(),
            self.spread(),
            self.seed(),
            self.progress(),
            p,
        )
    }

    /// The window of an edge that moves in `direction` across `area`, at `alpha`.
    pub fn new(
        direction: Motion,
        area: Rect,
        gradient: u16,
        spread: u16,
        rng: SimpleRng,
        alpha: u32,
    ) -> (window: SlidingWindowAlpha)
        requires
            alpha <= ALPHA_ONE,
        ensures
            window.wf(),
            window.direction() == direction,
            window.area() == area,
            window.gradient() == gradient,
            window.spread() == spread,
            window.seed() == rng.state(),
            window.progress() == alpha,
    {
        let horizontal = direction.is_horizontal();
        let length: u16 = if horizontal {
            area.width
        } else {
            area.height
        };
        let lines: u16 = if horizontal {
            area.height
        } else {
            area.width
        };
        assert(0 <= alpha * (length + gradient + spread) <= 65536 * (3 * 65535)) by (nonlinear_arith)
            requires
                0 <= alpha <= 65536,
                0 <= length + gradient + spread <= 3 * 65535,
        ;
        let front: u64 = (alpha as u64) * (length as u64 + gradient as u64 + spread as u64);
        let seed = rng.seed();
        let mut lcg = rng;
        let mut offsets: Vec<u16> = Vec::new();
        let mut i: u16 = 0;
        while i < lines
            invariant
                0 <= i <= lines,
                offsets@.len() == i,
                lcg.state() == state_after(seed, i as nat),
                forall|j: int|
                    0 <= j < i ==> #[trigger] offsets@[j] == offset_at(seed, spread, j as nat),
            decreases lines - i,
        {
            proof {
                SimpleRng::lemma_step(seed, i as nat);
            }
            let fraction = lcg.gen_fraction();
            assert(0 <= fraction * (spread + 1) / 8388608 <= spread) by (nonlinear_arith)
                requires
                    0 <= fraction < 8388608,
                    0 <= spread,
            ;
            assert(fraction * (spread + 1) <= 8388608 * 65536) by (nonlinear_arith)
                requires
                    0 <= fraction < 8388608,
                    0 <= spread <= 65535,
            ;
            let offset = ((fraction as u64) * (spread as u64 + 1)) / (FRACTION_ONE as u64);
            offsets.push(offset as u16);
            i = i + 1;
        }
        SlidingWindowAlpha { direction, area, gradient, spread, seed, progress: alpha, front, offsets }
    }

    /// How far the edge has passed the cell at `position`, which lies in the area: a
    /// fraction of [`ALPHA_ONE`].
    pub fn alpha(&self, position: Position) -> (a: u32)
        requires
            self.wf(),
            contains_position(self.area(), position),
        ensures
            a == self.alpha_at(position),
            a <= ALPHA_ONE,
    {
        let area = self.area;
        let (distance, line): (u32, u16) = match self.direction {
            Motion::LeftToRight => ((position.x - area.x) as u32, position.y - area.y),
            Motion::RightToLeft => (
                area.x as u32 + area.width as u32 - 1 - position.x as u32,
                position.y - area.y,
            ),
            Motion::UpToDown => ((position.y - area.y) as u32, position.x - area.x),
            Motion::DownToUp => (
                area.y as u32 + area.height as u32 - 1 - position.y as u32,
                position.x - area.x,
            ),
        };
        let offset: u16 = self.offsets[line as usize];
        let reach: u64 = (distance as u64 + offset as u64) * (ALPHA_ONE as u64);
        if self.front <= reach {
            0
        } else if self.gradient == 0 || self.front - reach >= (self.gradient as u64) * (
        ALPHA_ONE as u64) {
            ALPHA_ONE
        } else {
            let gradient = self.gradient as u64;
            let span = self.front - reach;
            assert(span / gradient < 65536) by (nonlinear_arith)
                requires
                    0 <= span < gradient * 65536,
                    gradient > 0,
            ;
            (span / gradient) as u32
        }
    }
}

/// At alpha zero the edge has reached no cell, and at alpha one it has passed every cell
/// of the area.
pub proof fn lemma_window_ends(
    direction: Motion,
    area: Rect,
    gradient: u16,
    spread: u16,
    seed: u32,
    p: Position,
)
    requires
        contains_position(area, p),
    ensures
        window_alpha(direction, area, gradient, spread, seed, 0, p) == 0,
        window_alpha(direction, area, gradient, spread, seed, ALPHA_ONE, p) == ALPHA_ONE,
{
    let line = line_of(direction, area, p) as nat;
    SimpleRng::lemma_step(seed, line);
    let f = fraction_at(seed, line) as int;
    assert(0 <= f * (spread + 1) / 8388608 <= spread) by (nonlinear_arith)
        requires
            0 <= f < 8388608,
            0 <= spread,
    ;
    let reach = distance_of(direction, area, p) + offset_at(seed, spread, line);
    let length = axis_length(direction, area) as int;
    assert(0 <= reach <= length - 1 + spread);
    assert(65536 * (length + gradient + spread) - reach * 65536 >= gradient * 65536 + 65536)
        by (nonlinear_arith)
        requires
            0 <= reach <= length - 1 + spread,
    ;
    assert(0 <= reach * 65536) by (nonlinear_arith)
        requires
            0 <= reach,
    ;
}

} // verus!
