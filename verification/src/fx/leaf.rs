//! What the shaders that paint cells have in common: a timer, an area, and a filter.

use vstd::prelude::*;
use ratatui::buffer::Buffer;
use ratatui::layout::Rect;
use crate::buffer::{buffer_area, buffer_cells};
use crate::cell_filter::{CellFilter, FilterView};
use crate::cell_iter::{is_selection, CellIterator};
use crate::duration::Duration;
use crate::effect_timer::EffectTimer;
use crate::interpolation::ALPHA_ONE;
use crate::shader::{reset_to, rewinds, step_timing};
use crate::shader_view::{same_timing, Look, ShaderView};

verus! {

/// The timer of a shader that paints cells, the area that it works in instead of the
/// area that it is given, if any, and the filter that selects its cells.
pub struct LeafState {
    timer: EffectTimer,
    area: Option<Rect>,
    cell_filter: CellFilter,
}

impl LeafState {
    /// The timer.
    pub closed spec fn timer_view(self) -> EffectTimer {
        self.timer
    }

    /// The area.
    pub closed spec fn area_view(self) -> Option<Rect> {
        self.area
    }

    /// The filter.
    pub closed spec fn filter_view(self) -> FilterView {
        self.cell_filter@
    }

    /// The state of a shader that has this timer, area and filter, and paints as `look`
    /// says.
    pub open spec fn model(self, look: Look) -> ShaderView {
        ShaderView::Leaf {
            timer: self.timer_view(),
            area: self.area_view(),
            filter: self.filter_view(),
            look,
        }
    }

    /// A state with the timer `timer`, no area of its own, and every cell selected.
    pub fn new(timer: EffectTimer) -> (state: LeafState)
        ensures
            state.timer_view() == timer,
            state.area_view() is None,
            state.filter_view() == FilterView::All,
    {
        LeafState { timer, area: None, cell_filter: CellFilter::All }
    }

    /// Advances the timer by `duration`.
    ///
    /// Returns the time left over on the step that completes the timer, and the alpha
    /// that the timer then shows.
    pub fn advance(&mut self, duration: Duration) -> (r: (Option<Duration>, u32))
        ensures
            final(self).timer_view() == old(self).timer_view().advanced(duration),
            final(self).area_view() == old(self).area_view(),
            final(self).filter_view() == old(self).filter_view(),
            r.1 == final(self).timer_view().alpha_value(),
            r.1 <= ALPHA_ONE,
            forall|look: Look|
                step_timing(
                    #[trigger] old(self).model(look),
                    duration,
                    final(self).model(look),
                    r.0,
                ),
    {
        proof {
            self.timer.lemma_advance_any(duration);
        }
        let overflow = self.timer.process(duration);
        (overflow, self.timer.alpha())
    }

    /// The cells of `buf` that the filter selects: within the state's own area if it has
    /// one, else within `area`.
    pub fn select(&self, buf: &Buffer, area: Rect) -> (iter: CellIterator)
        ensures
            is_selection(
                iter.positions(),
                buffer_cells(*buf),
                buffer_area(*buf),
                area,
                Some(self.filter_view()),
            ),
    {
        CellIterator::new(buf, area, Some(&self.cell_filter))
    }

    /// Whether the timer has run its whole duration.
    pub fn done(&self) -> (r: bool)
        ensures
            r == self.timer_view().is_done(),
            forall|look: Look| r == (#[trigger] self.model(look)).is_done(),
    {
        self.timer.done()
    }

    /// Whether the timer has no duration.
    pub fn is_instant(&self) -> (r: bool)
        ensures
            forall|look: Look| r == (#[trigger] self.model(look)).instant(),
    {
        self.timer.duration().is_zero()
    }

    /// Puts the timer back to its start.
    pub fn reset(&mut self)
        ensures
            final(self).timer_view() == old(self).timer_view().rewound(),
            final(self).area_view() == old(self).area_view(),
            final(self).filter_view() == old(self).filter_view(),
            forall|look: Look| rewinds(#[trigger] old(self).model(look), final(self).model(look)),
    {
        proof {
            reveal(reset_to);
        }
        proof {
            self.timer.lemma_parts(
                Duration::from_millis_spec(0),
                self.timer.curve_kind(),
                Duration::from_millis_spec(0),
            );
        }
        self.timer.reset();
    }

    /// Turns the timer round.
    pub fn reverse(&mut self)
        ensures
            final(self).timer_view() == old(self).timer_view().flipped(),
            final(self).area_view() == old(self).area_view(),
            final(self).filter_view() == old(self).filter_view(),
            forall|look: Look|
                (#[trigger] final(self).model(look)) == old(self).model(look).reversed()
                    && same_timing(old(self).model(look), final(self).model(look)),
    {
        proof {
            self.timer.lemma_parts(
                Duration::from_millis_spec(0),
                self.timer.curve_kind(),
                Duration::from_millis_spec(0),
            );
        }
        self.timer = self.timer.reversed();
    }

    /// The timer, to be changed in place.
    pub fn timer_mut(&mut self) -> (timer: &mut EffectTimer)
        ensures
            *timer == old(self).timer_view(),
            final(self).timer_view() == *final(timer),
            final(self).area_view() == old(self).area_view(),
            final(self).filter_view() == old(self).filter_view(),
    {
        &mut self.timer
    }

    /// The timer.
    pub fn timer(&self) -> (timer: EffectTimer)
        ensures
            timer == self.timer_view(),
    {
        self.timer
    }

    /// The area.
    pub fn area(&self) -> (area: Option<Rect>)
        ensures
            area == self.area_view(),
            forall|look: Look| area == (#[trigger] self.model(look)).area(),
    {
        self.area
    }

    /// Sets the area.
    pub fn set_area(&mut self, area: Rect)
        ensures
            final(self).timer_view() == old(self).timer_view(),
            final(self).area_view() == Some(area),
            final(self).filter_view() == old(self).filter_view(),
            forall|look: Look|
                (#[trigger] final(self).model(look)) == old(self).model(look).with_area(area)
                    && same_timing(old(self).model(look), final(self).model(look)),
    {
        self.area = Some(area)
    }

    /// A copy of the filter.
    pub fn cell_selection(&self) -> (filter: CellFilter)
        ensures
            filter@ == self.filter_view(),
            forall|look: Look| Some(filter@) == (#[trigger] self.model(look)).filter(),
    {
        self.cell_filter.duplicate()
    }

    /// Sets the filter.
    pub fn set_cell_selection(&mut self, filter: CellFilter)
        ensures
            final(self).timer_view() == old(self).timer_view(),
            final(self).area_view() == old(self).area_view(),
            final(self).filter_view() == filter@,
            forall|look: Look|
                (#[trigger] final(self).model(look)) == old(self).model(look).with_filter(filter@)
                    && same_timing(old(self).model(look), final(self).model(look)),
    {
        self.cell_filter = filter
    }

    /// A copy of the state.
    pub fn duplicate(&self) -> (copy: LeafState)
        ensures
            copy.timer_view() == self.timer_view(),
            copy.area_view() == self.area_view(),
            copy.filter_view() == self.filter_view(),
    {
        LeafState { timer: self.timer, area: self.area, cell_filter: self.cell_filter.duplicate() }
    }
}

} // verus!
