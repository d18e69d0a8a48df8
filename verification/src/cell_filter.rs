//! Choosing the cells that an effect may touch.
//!
//! A [`CellFilter`] is a tree of tests. Bound to an area by [`CellFilter::selector`] it
//! becomes a [`CellPredicate`], which tells of a position and the cell there whether the
//! filter accepts them. A cell is accepted when both its position and its content pass.
//!
//! What a test supplied by the caller answers, and how a layout divides an area, is not
//! known in advance. The contracts therefore speak of a *verdict*: `Some(b)` where the
//! filter's answer is `b` whatever those say, `None` where it depends on them.
//!
//! A predicate first asks the tests and the layouts of its filter, and keeps what they
//! tell in a [`Told`]. What the filter makes of that is decided afterwards, and is stated
//! exactly: [`FilterView::position_value`] and [`FilterView::content_value`].

use vstd::prelude::*;
use vstd::string::{StrSliceExecFns, StringExecFns};
use std::rc::Rc;
use ratatui::layout::{Layout, Margin, Position, Rect};
use ratatui::style::Color;
use crate::cell::{Cell, CellView};
use crate::color_ext::{rgb_of, to_rgb};
use crate::geometry::{contains_position, inner_of};
use crate::text::{decimal, decimal_string, hex_pair, hex_string, is_letter, is_number, letter, number};

verus! {

/// `ratatui::layout::Layout`, opaque: how a layout divides an area is left to `ratatui`.
#[verifier::external_type_specification]
#[verifier::external_body]
pub struct ExLayout(ratatui::layout::Layout);

/// `Layout`'s `clone`: an equal layout.
pub assume_specification[ <ratatui::layout::Layout as Clone>::clone ](
    a: &ratatui::layout::Layout,
) -> (r: ratatui::layout::Layout)
    ensures
        r == *a,
;

/// `Layout::split`: the slots that the layout divides the area into, in their order. How
/// a layout divides an area is left to `ratatui`.
#[verifier::external_body]
fn layout_slots(layout: &Layout, area: Rect) -> Vec<Rect> {
    layout.split(area).to_vec()
}

/// A test on positions that the caller supplies, shared by every copy of the filter.
#[verifier::external_body]
pub struct PositionFnType {
    f: Rc<dyn Fn(Position) -> bool>,
}

/// A test on cells that the caller supplies, shared by every copy of the filter.
#[verifier::external_body]
pub struct CellPredFn {
    f: Rc<dyn Fn(&Cell) -> bool>,
}

impl PositionFnType {
    /// `Rc::new`: takes the closure into shared ownership.
    #[verifier::external_body]
    pub(crate) fn wrap<F: Fn(Position) -> bool + 'static>(f: F) -> PositionFnType {
        PositionFnType { f: Rc::new(f) }
    }

    /// A call of the closure in the `Rc`: the caller's test. Nothing is known of its
    /// answer.
    #[verifier::external_body]
    pub(crate) fn apply(&self, pos: Position) -> bool {
        (self.f)(pos)
    }

    /// `Rc::clone`: another handle on the same test.
    #[verifier::external_body]
    pub(crate) fn share(&self) -> (r: PositionFnType)
        ensures
            r == *self,
    {
        PositionFnType { f: self.f.clone() }
    }
}

impl CellPredFn {
    /// `Rc::new`: takes the closure into shared ownership.
    #[verifier::external_body]
    pub(crate) fn wrap<F: Fn(&Cell) -> bool + 'static>(f: F) -> CellPredFn {
        CellPredFn { f: Rc::new(f) }
    }

    /// A call of the closure in the `Rc`: the caller's test. Nothing is known of its
    /// answer.
    #[verifier::external_body]
    pub(crate) fn apply(&self, cell: &Cell) -> bool {
        (self.f)(cell)
    }

    /// `Rc::clone`: another handle on the same test.
    #[verifier::external_body]
    pub(crate) fn share(&self) -> (r: CellPredFn)
        ensures
            r == *self,
    {
        CellPredFn { f: self.f.clone() }
    }
}

impl Clone for PositionFnType {
    fn clone(&self) -> (r: PositionFnType)
        ensures
            r == *self,
    {
        self.share()
    }
}

impl Clone for CellPredFn {
    fn clone(&self) -> (r: CellPredFn)
        ensures
            r == *self,
    {
        self.share()
    }
}

/// A filter that lets effects work on some cells only: by color, position, content, a
/// test of the caller's, or a combination of these.
pub enum CellFilter {
    /// Selects every cell
    All,
    /// Selects cells with matching foreground color
    FgColor(Color),
    /// Selects cells with matching background color
    BgColor(Color),
    /// Selects cells within the inner margin of the area
    Inner(Margin),
    /// Selects cells outside the inner margin of the area
    Outer(Margin),
    /// Selects cells with text
    Text,
    /// Selects cells that match all the given filters
    AllOf(Vec<CellFilter>),
    /// Selects cells that match any of the given filters
    AnyOf(Vec<CellFilter>),
    /// Selects cells that do not match any of the given filters
    NoneOf(Vec<CellFilter>),
    /// Negates the given filter
    Not(Box<CellFilter>),
    /// Selects cells within the specified layout, denoted by the index
    Layout(Layout, u16),
    /// Selects cells by predicate function
    PositionFn(PositionFnType),
    /// Selects cells by predicate function
    EvalCell(CellPredFn),
}

/// A filter as a mathematical value: the same tree, with sequences for lists.
pub enum FilterView {
    All,
    FgColor(Color),
    BgColor(Color),
    Inner(Margin),
    Outer(Margin),
    Text,
    AllOf(Seq<FilterView>),
    AnyOf(Seq<FilterView>),
    NoneOf(Seq<FilterView>),
    Not(Box<FilterView>),
    Layout(ratatui::layout::Layout, u16),
    PositionFn(PositionFnType),
    EvalCell(CellPredFn),
}

/// The filters of a list as mathematical values.
pub open spec fn views_of(filters: Seq<CellFilter>) -> Seq<FilterView>
    decreases filters,
{
    Seq::new(
        filters.len(),
        |i: int|
            if 0 <= i < filters.len() {
                filters[i].model()
            } else {
                FilterView::All
            },
    )
}

impl CellFilter {
    /// The filter as a mathematical value.
    pub open spec fn model(self) -> FilterView
        decreases self,
    {
        match self {
            CellFilter::All => FilterView::All,
            CellFilter::FgColor(color) => FilterView::FgColor(color),
            CellFilter::BgColor(color) => FilterView::BgColor(color),
            CellFilter::Inner(m) => FilterView::Inner(m),
            CellFilter::Outer(m) => FilterView::Outer(m),
            CellFilter::Text => FilterView::Text,
            CellFilter::AllOf(filters) => FilterView::AllOf(views_of(filters@)),
            CellFilter::AnyOf(filters) => FilterView::AnyOf(views_of(filters@)),
            CellFilter::NoneOf(filters) => FilterView::NoneOf(views_of(filters@)),
            CellFilter::Not(filter) => FilterView::Not(Box::new((*filter).model())),
            CellFilter::Layout(layout, idx) => FilterView::Layout(layout, idx),
            CellFilter::PositionFn(f) => FilterView::PositionFn(f),
            CellFilter::EvalCell(f) => FilterView::EvalCell(f),
        }
    }
}

impl View for CellFilter {
    type V = FilterView;

    open spec fn view(&self) -> FilterView {
        self.model()
    }
}

/// The other answer, where there is one.
pub open spec fn negated(v: Option<bool>) -> Option<bool> {
    match v {
        Some(b) => Some(!b),
        None => None,
    }
}

/// Both: `false` as soon as one is `false`, `true` when both are `true`.
pub open spec fn both(a: Option<bool>, b: Option<bool>) -> Option<bool> {
    if a == Some(false) || b == Some(false) {
        Some(false)
    } else if a == Some(true) && b == Some(true) {
        Some(true)
    } else {
        None
    }
}

/// A symbol counts as text when it is a single character that is a letter, numeric, a
/// blank, or one of `?!.,:;`.
pub open spec fn is_text(symbol: Seq<char>) -> bool {
    symbol.len() == 1 && is_text_char(symbol[0])
}

/// A letter, a numeric character, a blank, or one of `?!.,:;`.
pub open spec fn is_text_char(ch: char) -> bool {
    is_letter(ch) || is_number(ch) || ch == ' ' || ch == '?' || ch == '!' || ch == '.' || ch
        == ',' || ch == ':' || ch == ';'
}

/// A color as `#rrggbb`.
pub open spec fn hex_text(color: Color) -> Seq<char> {
    let (r, g, b) = rgb_of(color);
    "#"@ + hex_pair(r) + hex_pair(g) + hex_pair(b)
}

/// A margin as `horizontal:vertical`.
pub open spec fn margin_text(m: Margin) -> Seq<char> {
    decimal(m.horizontal as nat) + ":"@ + decimal(m.vertical as nat)
}

/// The texts of the filters, separated by a comma and a blank.
pub open spec fn joined_text(filters: Seq<FilterView>) -> Seq<char>
    decreases filters,
{
    if filters.len() == 0 {
        Seq::<char>::empty()
    } else if filters.len() == 1 {
        filters[0].text()
    } else {
        joined_text(filters.drop_last()) + ", "@ + filters.last().text()
    }
}

impl FilterView {
    /// The filter written out, as [`CellFilter::to_string`] gives it.
    pub open spec fn text(self) -> Seq<char>
        decreases self,
    {
        match self {
            FilterView::All => "all"@,
            FilterView::FgColor(color) => "fg("@ + hex_text(color) + ")"@,
            FilterView::BgColor(color) => "bg("@ + hex_text(color) + ")"@,
            FilterView::Inner(m) => "inner("@ + margin_text(m) + ")"@,
            FilterView::Outer(m) => "outer("@ + margin_text(m) + ")"@,
            FilterView::Text => "text"@,
            FilterView::AllOf(filters) => "all_of("@ + joined_text(filters) + ")"@,
            FilterView::AnyOf(filters) => "any_of("@ + joined_text(filters) + ")"@,
            FilterView::NoneOf(filters) => "none_of("@ + joined_text(filters) + ")"@,
            FilterView::Not(filter) => "!"@ + filter.text(),
            FilterView::Layout(_, idx) => "layout("@ + decimal(idx as nat) + ")"@,
            FilterView::PositionFn(_) => "position_fn"@,
            FilterView::EvalCell(_) => "eval_cell"@,
        }
    }

    /// The area that the filter works in when it is bound to `area`: shrunk by the margin
    /// for the margin filters, looked through a negation, `area` itself for the rest;
    /// `None` for a layout slot, which the layout decides.
    pub open spec fn resolved(self, area: Rect) -> Option<Rect>
        decreases self,
    {
        match self {
            FilterView::Inner(margin) => Some(inner_of(area, margin)),
            FilterView::Outer(margin) => Some(inner_of(area, margin)),
            FilterView::Not(m) => m.resolved(area),
            FilterView::Layout(_, _) => None,
            _ => Some(area),
        }
    }

    /// The verdict on a position, for the filter working in `area`.
    ///
    /// Most filters ask that the position lie in their area; the outer margin asks that it
    /// lie outside the inner area; a negation turns its filter's verdict round; the
    /// lists combine the verdicts of their filters, each bound to `area` anew.
    pub open spec fn position_verdict(self, area: Rect, pos: Position) -> Option<bool>
        decreases self, 0int,
    {
        match self {
            FilterView::Outer(_) => Some(!contains_position(area, pos)),
            FilterView::AllOf(s) => if exists|i: int|
                0 <= i < s.len() && (#[trigger] s[i]).bound_position_verdict(area, pos) == Some(
                    false,
                ) {
                Some(false)
            } else if forall|i: int|
                0 <= i < s.len() ==> (#[trigger] s[i]).bound_position_verdict(area, pos) == Some(
                    true,
                ) {
                Some(true)
            } else {
                None
            },
            FilterView::AnyOf(s) => if exists|i: int|
                0 <= i < s.len() && (#[trigger] s[i]).bound_position_verdict(area, pos) == Some(
                    true,
                ) {
                Some(true)
            } else if forall|i: int|
                0 <= i < s.len() ==> (#[trigger] s[i]).bound_position_verdict(area, pos) == Some(
                    false,
                ) {
                Some(false)
            } else {
                None
            },
            FilterView::NoneOf(s) => if exists|i: int|
                0 <= i < s.len() && (#[trigger] s[i]).bound_position_verdict(area, pos) == Some(
                    true,
                ) {
                Some(false)
            } else if forall|i: int|
                0 <= i < s.len() ==> (#[trigger] s[i]).bound_position_verdict(area, pos) == Some(
                    false,
                ) {
                Some(true)
            } else {
                None
            },
            FilterView::Not(m) => negated(m.position_verdict(area, pos)),
            FilterView::PositionFn(_) => None,
            _ => Some(contains_position(area, pos)),
        }
    }

    /// The verdict on a position, for the filter bound to `area`.
    pub open spec fn bound_position_verdict(self, area: Rect, pos: Position) -> Option<bool>
        decreases self, 1int,
    {
        match self.resolved(area) {
            Some(inner) => self.position_verdict(inner, pos),
            None => None,
        }
    }

    /// The verdict on the content of a cell.
    ///
    /// The text filter asks for text, the color filters for their color, a negation turns
    /// its filter's verdict round, and a list of filters that must all match combines
    /// theirs. The other filters ask nothing of the content.
    pub open spec fn content_verdict(self, cell: CellView) -> Option<bool>
        decreases self,
    {
        match self {
            FilterView::Text => Some(is_text(cell.symbol)),
            FilterView::AllOf(s) => if exists|i: int|
                0 <= i < s.len() && (#[trigger] s[i]).content_verdict(cell) == Some(false) {
                Some(false)
            } else if forall|i: int|
                0 <= i < s.len() ==> (#[trigger] s[i]).content_verdict(cell) == Some(true) {
                Some(true)
            } else {
                None
            },
            FilterView::FgColor(color) => Some(cell.fg == color),
            FilterView::BgColor(color) => Some(cell.bg == color),
            FilterView::Not(m) => negated(m.content_verdict(cell)),
            FilterView::EvalCell(_) => None,
            _ => Some(true),
        }
    }

    /// The verdict of the filter, bound to `area`, on a position and the cell there.
    pub open spec fn accepts(self, area: Rect, pos: Position, cell: CellView) -> Option<bool> {
        both(self.bound_position_verdict(area, pos), self.content_verdict(cell))
    }
}

/// What a filter was told from outside, in the shape of the filter: the answers of the
/// tests of the caller, and the slots of the layouts.
pub enum Told {
    /// For a filter that asks nothing.
    Plain,
    /// The answer of a test of the caller.
    Answer(bool),
    /// The slot of a layout.
    Slot(Rect),
    /// For a negation: what its filter was told.
    Of(Box<Told>),
    /// For a list: what each of its filters was told.
    Each(Vec<Told>),
}

/// What a filter was told, as a mathematical value.
pub enum ToldView {
    Plain,
    Answer(bool),
    Slot(Rect),
    Of(Box<ToldView>),
    Each(Seq<ToldView>),
}

/// What the filters of a list were told, as mathematical values.
pub open spec fn told_views(told: Seq<Told>) -> Seq<ToldView>
    decreases told,
{
    Seq::new(
        told.len(),
        |i: int|
            if 0 <= i < told.len() {
                told[i].model()
            } else {
                ToldView::Plain
            },
    )
}

impl Told {
    /// What was told, as a mathematical value.
    pub open spec fn model(self) -> ToldView
        decreases self,
    {
        match self {
            Told::Plain => ToldView::Plain,
            Told::Answer(b) => ToldView::Answer(b),
            Told::Slot(r) => ToldView::Slot(r),
            Told::Of(t) => ToldView::Of(Box::new((*t).model())),
            Told::Each(t) => ToldView::Each(told_views(t@)),
        }
    }
}

impl View for Told {
    type V = ToldView;

    open spec fn view(&self) -> ToldView {
        self.model()
    }
}

impl ToldView {
    /// Whether this has the shape of the filter: an answer for each test of the caller, a
    /// slot for each layout, and so through negations and lists.
    pub open spec fn tells(self, filter: FilterView) -> bool
        decreases filter,
    {
        match filter {
            FilterView::AllOf(s) | FilterView::AnyOf(s) | FilterView::NoneOf(s) => self matches ToldView::Each(
                t,
            ) && t.len() == s.len() && forall|i: int|
                0 <= i < s.len() ==> (#[trigger] t[i]).tells(s[i]),
            FilterView::Not(m) => self matches ToldView::Of(t) && t.tells(*m),
            FilterView::Layout(_, _) => self is Slot,
            FilterView::PositionFn(_) => self is Answer,
            FilterView::EvalCell(_) => self is Answer,
            _ => self is Plain,
        }
    }
}

/// How many of the first `n` filters the position passes, each bound to `area`, with
/// what each was told.
pub open spec fn passed_upto(
    filters: Seq<FilterView>,
    told: Seq<ToldView>,
    area: Rect,
    pos: Position,
    n: int,
) -> int
    decreases filters, n,
{
    if n <= 0 || n > filters.len() {
        0
    } else {
        passed_upto(filters, told, area, pos, n - 1) + if filters[n - 1].bound_position_value(
            area,
            pos,
            told[n - 1],
        ) {
            1int
        } else {
            0int
        }
    }
}

/// How many of the first `n` filters the content of the cell passes, with what each was
/// told.
pub open spec fn content_upto(
    filters: Seq<FilterView>,
    told: Seq<ToldView>,
    cell: CellView,
    n: int,
) -> int
    decreases filters, n,
{
    if n <= 0 || n > filters.len() {
        0
    } else {
        content_upto(filters, told, cell, n - 1) + if filters[n - 1].content_value(
            cell,
            told[n - 1],
        ) {
            1int
        } else {
            0int
        }
    }
}

impl FilterView {
    /// The area that the filter works in when it is bound to `area`, with the slot that
    /// its layout has told.
    pub open spec fn resolved_with(self, area: Rect, told: ToldView) -> Rect
        decreases self,
    {
        match self {
            FilterView::Inner(margin) => inner_of(area, margin),
            FilterView::Outer(margin) => inner_of(area, margin),
            FilterView::Not(m) => match told {
                ToldView::Of(t) => m.resolved_with(area, *t),
                _ => area,
            },
            FilterView::Layout(_, _) => match told {
                ToldView::Slot(r) => r,
                _ => area,
            },
            _ => area,
        }
    }

    /// Whether the position passes the filter working in `area`, the tests of the caller
    /// having told `told`.
    ///
    /// Most filters ask that the position lie in their area; the outer margin asks that it
    /// lie outside the inner area; a test of the caller passes what it answered yes to; a
    /// negation passes what its filter does not; of a list all, any or none must pass,
    /// each bound to `area` anew. What does not have the shape of the filter tells nothing,
    /// and nothing passes.
    pub open spec fn position_value(self, area: Rect, pos: Position, told: ToldView) -> bool
        decreases self, 0int,
    {
        match self {
            FilterView::Outer(_) => !contains_position(area, pos),
            FilterView::AllOf(s) => told matches ToldView::Each(t) && t.len() == s.len()
                && passed_upto(s, t, area, pos, s.len() as int) == s.len(),
            FilterView::AnyOf(s) => told matches ToldView::Each(t) && t.len() == s.len()
                && passed_upto(s, t, area, pos, s.len() as int) > 0,
            FilterView::NoneOf(s) => told matches ToldView::Each(t) && t.len() == s.len()
                && passed_upto(s, t, area, pos, s.len() as int) == 0,
            FilterView::Not(m) => told matches ToldView::Of(t) && !m.position_value(area, pos, *t),
            FilterView::PositionFn(_) => told matches ToldView::Answer(b) && b,
            _ => contains_position(area, pos),
        }
    }

    /// Whether the position passes the filter bound to `area`.
    pub open spec fn bound_position_value(self, area: Rect, pos: Position, told: ToldView) -> bool
        decreases self, 1int,
    {
        self.position_value(self.resolved_with(area, told), pos, told)
    }

    /// Whether the content of the cell passes the filter, the tests of the caller having
    /// told `told`.
    pub open spec fn content_value(self, cell: CellView, told: ToldView) -> bool
        decreases self, 0int,
    {
        match self {
            FilterView::Text => is_text(cell.symbol),
            FilterView::AllOf(s) => told matches ToldView::Each(t) && t.len() == s.len()
                && content_upto(s, t, cell, s.len() as int) == s.len(),
            FilterView::FgColor(color) => cell.fg == color,
            FilterView::BgColor(color) => cell.bg == color,
            FilterView::Not(m) => told matches ToldView::Of(t) && !m.content_value(cell, *t),
            FilterView::EvalCell(_) => told matches ToldView::Answer(b) && b,
            _ => true,
        }
    }
}

impl CellFilter {
    /// A filter that asks the caller's test about each cell.
    ///
    /// The test returns `true` for the cells to select.
    pub fn eval_cell<F>(f: F) -> (filter: CellFilter) where F: Fn(&Cell) -> bool + 'static
        ensures
            filter is EvalCell,
    {
        CellFilter::EvalCell(CellPredFn::wrap(f))
    }

    /// A filter that asks the caller's test about each position.
    ///
    /// The test returns `true` for the positions to select.
    pub fn position_fn<F>(f: F) -> (filter: CellFilter) where F: Fn(Position) -> bool + 'static
        ensures
            filter is PositionFn,
    {
        CellFilter::PositionFn(PositionFnType::wrap(f))
    }

    /// A copy of the filter; tests of the caller are shared, not copied.
    pub fn duplicate(&self) -> (copy: CellFilter)
        ensures
            copy@ == self@,
        decreases self,
    {
        match self {
            CellFilter::All => CellFilter::All,
            CellFilter::FgColor(color) => CellFilter::FgColor(*color),
            CellFilter::BgColor(color) => CellFilter::BgColor(*color),
            CellFilter::Inner(m) => CellFilter::Inner(*m),
            CellFilter::Outer(m) => CellFilter::Outer(*m),
            CellFilter::Text => CellFilter::Text,
            CellFilter::AllOf(filters) => CellFilter::AllOf(duplicate_all(filters)),
            CellFilter::AnyOf(filters) => CellFilter::AnyOf(duplicate_all(filters)),
            CellFilter::NoneOf(filters) => CellFilter::NoneOf(duplicate_all(filters)),
            CellFilter::Not(filter) => CellFilter::Not(Box::new(filter.duplicate())),
            CellFilter::Layout(layout, idx) => CellFilter::Layout(layout.clone(), *idx),
            CellFilter::PositionFn(f) => CellFilter::PositionFn(f.share()),
            CellFilter::EvalCell(f) => CellFilter::EvalCell(f.share()),
        }
    }

    /// Writes the filter out in a form that people can read.
    pub fn to_string(&self) -> (s: String)
        ensures
            s@ == self@.text(),
        decreases self,
    {
        match self {
            CellFilter::All => String::from_str("all"),
            CellFilter::FgColor(color) => wrapped("fg(", to_hex(color), ")"),
            CellFilter::BgColor(color) => wrapped("bg(", to_hex(color), ")"),
            CellFilter::Inner(m) => wrapped("inner(", format_margin(m), ")"),
            CellFilter::Outer(m) => wrapped("outer(", format_margin(m), ")"),
            CellFilter::Text => String::from_str("text"),
            CellFilter::AllOf(filters) => wrapped("all_of(", join_strings(filters), ")"),
            CellFilter::AnyOf(filters) => wrapped("any_of(", join_strings(filters), ")"),
            CellFilter::NoneOf(filters) => wrapped("none_of(", join_strings(filters), ")"),
            CellFilter::Not(filter) => String::from_str("!").concat(filter.to_string().as_str()),
            CellFilter::Layout(_, idx) => wrapped("layout(", decimal_string(*idx), ")"),
            CellFilter::PositionFn(_) => String::from_str("position_fn"),
            CellFilter::EvalCell(_) => String::from_str("eval_cell"),
        }
    }

    /// Binds the filter to an area.
    pub fn selector(&self, area: Rect) -> (predicate: CellPredicate)
        ensures
            predicate.filter() == self@,
            self@.resolved(area) matches Some(inner) ==> predicate.area() == inner,
    {
        CellPredicate::new(area, self.duplicate())
    }
}

impl Clone for CellFilter {
    fn clone(&self) -> (copy: CellFilter)
        ensures
            copy@ == self@,
    {
        self.duplicate()
    }
}

impl Default for CellFilter {
    fn default() -> (filter: CellFilter)
        ensures
            filter is All,
    {
        CellFilter::All
    }
}

/// `a`, then `body`, then `b`.
fn wrapped(a: &str, body: String, b: &str) -> (s: String)
    ensures
        s@ == a@ + body@ + b@,
{
    let mut s = String::from_str(a);
    s.append(body.as_str());
    s.append(b);
    s
}

/// A color as `#rrggbb`.
fn to_hex(c: &Color) -> (s: String)
    ensures
        s@ == hex_text(*c),
{
    let (r, g, b) = to_rgb(*c);
    let mut s = String::from_str("#");
    s.append(hex_string(r).as_str());
    s.append(hex_string(g).as_str());
    s.append(hex_string(b).as_str());
    s
}

/// A margin as `horizontal:vertical`.
fn format_margin(m: &Margin) -> (s: String)
    ensures
        s@ == margin_text(*m),
{
    let mut s = decimal_string(m.horizontal);
    s.append(":");
    s.append(decimal_string(m.vertical).as_str());
    s
}

/// The filters written out, separated by a comma and a blank.
fn join_strings(filters: &Vec<CellFilter>) -> (s: String)
    ensures
        s@ == joined_text(views_of(filters@)),
    decreases filters,
{
    let mut s = String::new();
    let mut i: usize = 0;
    while i < filters.len()
        invariant
            0 <= i <= filters.len(),
            s@ == joined_text(views_of(filters@).take(i as int)),
        decreases filters.len() - i,
    {
        if i > 0 {
            s.append(", ");
        }
        let ghost before = s@;
        s.append(filters[i].to_string().as_str());
        proof {
            let all = views_of(filters@);
            let now = all.take(i + 1);
            assert(now.drop_last() == all.take(i as int));
            assert(now.last() == filters@[i as int]@);
            if i == 0 {
                assert(before + now[0].text() == now[0].text());
            }
        }
        i = i + 1;
    }
    assert(views_of(filters@).take(filters.len() as int) == views_of(filters@));
    s
}

/// Copies of the filters.
fn duplicate_all(filters: &Vec<CellFilter>) -> (copies: Vec<CellFilter>)
    ensures
        views_of(copies@) == views_of(filters@),
    decreases filters,
{
    let mut copies: Vec<CellFilter> = Vec::new();
    let mut i: usize = 0;
    while i < filters.len()
        invariant
            0 <= i <= filters.len(),
            copies@.len() == i,
            forall|j: int| 0 <= j < i ==> (#[trigger] copies@[j])@ == filters@[j]@,
        decreases filters.len() - i,
    {
        copies.push(filters[i].duplicate());
        i = i + 1;
    }
    assert(views_of(copies@) =~= views_of(filters@));
    copies
}

/// A filter bound to an area: the test that tells whether a position and the cell there
/// are selected.
pub struct CellPredicate {
    /// The area that the filter works in. It differs from the area that the filter was
    /// bound to where the filter is a margin or a layout slot.
    inner_area: Rect,
    /// The filter.
    strategy: CellFilter,
}

impl CellPredicate {
    /// The area that the filter works in.
    pub closed spec fn area(self) -> Rect {
        self.inner_area
    }

    /// The filter.
    pub closed spec fn filter(self) -> FilterView {
        self.strategy@
    }

    /// The verdict of the predicate on a position and the cell there.
    pub open spec fn verdict(self, pos: Position, cell: CellView) -> Option<bool> {
        both(
            self.filter().position_verdict(self.area(), pos),
            self.filter().content_verdict(cell),
        )
    }

    fn new(area: Rect, strategy: CellFilter) -> (predicate: CellPredicate)
        ensures
            predicate.filter() == strategy@,
            strategy@.resolved(area) matches Some(inner) ==> predicate.area() == inner,
    {
        let inner_area = Self::resolve_area(area, &strategy);
        Self { inner_area, strategy }
    }

    fn resolve_area(area: Rect, mode: &CellFilter) -> (inner: Rect)
        ensures
            mode@.resolved(area) matches Some(r) ==> inner == r,
        decreases mode,
    {
        match mode {
            CellFilter::All => area,
            CellFilter::Inner(margin) => area.inner(*margin),
            CellFilter::Outer(margin) => area.inner(*margin),
            CellFilter::Text => area,
            CellFilter::AllOf(_) => area,
            CellFilter::AnyOf(_) => area,
            CellFilter::NoneOf(_) => area,
            CellFilter::Not(m) => Self::resolve_area(area, m),
            CellFilter::FgColor(_) => area,
            CellFilter::BgColor(_) => area,
            CellFilter::Layout(layout, idx) => slot_of(layout, area, *idx),
            CellFilter::PositionFn(_) => area,
            CellFilter::EvalCell(_) => area,
        }
    }

    /// The area that the filter works in.
    pub fn inner_area(&self) -> (area: Rect)
        ensures
            area == self.area(),
    {
        self.inner_area
    }

    /// Whether the cell at the position is selected: both its position and its content
    /// must pass the filter.
    ///
    /// The tests of the caller and the layouts in the filter are asked first; the answer
    /// is then what the filter makes of what they told. It is the predicate's verdict
    /// wherever there is one.
    pub fn is_valid(&self, pos: Position, cell: &Cell) -> (r: bool)
        ensures
            self.verdict(pos, cell@) matches Some(b) ==> r == b,
            exists|told: ToldView|
                #[trigger] told.tells(self.filter()) && r == (self.filter().position_value(
                    self.area(),
                    pos,
                    told,
                ) && self.filter().content_value(cell@, told)),
    {
        let mode = &self.strategy;
        let told = ask(mode, self.inner_area, pos, cell);
        let r = self.valid_position(pos, mode, &told) && self.is_valid_cell(cell, mode, &told);
        assert(told@.tells(self.filter()));
        r
    }

    fn valid_position(&self, pos: Position, mode: &CellFilter, told: &Told) -> (r: bool)
        ensures
            r == mode@.position_value(self.area(), pos, told@),
            told@.tells(mode@) ==> (mode@.position_verdict(self.area(), pos) matches Some(b) ==> r
                == b),
    {
        position_test(self.inner_area, pos, mode, told)
    }

    fn is_valid_cell(&self, cell: &Cell, mode: &CellFilter, told: &Told) -> (r: bool)
        ensures
            r == mode@.content_value(cell@, told@),
            told@.tells(mode@) ==> (mode@.content_verdict(cell@) matches Some(b) ==> r == b),
    {
        content_test(cell, mode, told)
    }
}

/// The slot of the layout at `index`, for the area; the empty rectangle where the layout
/// has no such slot.
fn slot_of(layout: &Layout, area: Rect, index: u16) -> Rect {
    let slots = layout_slots(layout, area);
    let i: usize = index as usize;
    if i < slots.len() {
        slots[i]
    } else {
        Rect { x: 0, y: 0, width: 0, height: 0 }
    }
}

/// Asks the tests of the caller and the layouts in the filter: each test about the
/// position or the cell, each layout for its slot of `area`. What they tell is handed
/// back as it is, in the shape of the filter.
fn ask(mode: &CellFilter, area: Rect, pos: Position, cell: &Cell) -> (told: Told)
    ensures
        told@.tells(mode@),
    decreases mode, 0int,
{
    match mode {
        CellFilter::AllOf(s) => {
            let each = ask_each(s, area, pos, cell);
            proof {
                lemma_each_tells(views_of(s@), told_views(each@));
            }
            Told::Each(each)
        },
        CellFilter::AnyOf(s) => {
            let each = ask_each(s, area, pos, cell);
            proof {
                lemma_each_tells(views_of(s@), told_views(each@));
            }
            Told::Each(each)
        },
        CellFilter::NoneOf(s) => {
            let each = ask_each(s, area, pos, cell);
            proof {
                lemma_each_tells(views_of(s@), told_views(each@));
            }
            Told::Each(each)
        },
        CellFilter::Not(m) => Told::Of(Box::new(ask(m, area, pos, cell))),
        CellFilter::Layout(layout, idx) => Told::Slot(slot_of(layout, area, *idx)),
        CellFilter::PositionFn(f) => Told::Answer(f.apply(pos)),
        CellFilter::EvalCell(f) => Told::Answer(f.apply(cell)),
        _ => Told::Plain,
    }
}

/// Asks for every filter of the list.
fn ask_each(filters: &Vec<CellFilter>, area: Rect, pos: Position, cell: &Cell) -> (told: Vec<Told>)
    ensures
        told@.len() == filters@.len(),
        forall|i: int|
            0 <= i < told@.len() ==> (#[trigger] told_views(told@)[i]).tells(views_of(filters@)[i]),
    decreases filters, 1int,
{
    let mut told: Vec<Told> = Vec::new();
    let mut i: usize = 0;
    while i < filters.len()
        invariant
            0 <= i <= filters.len(),
            told@.len() == i,
            forall|j: int|
                0 <= j < i ==> (#[trigger] told_views(told@)[j]).tells(views_of(filters@)[j]),
        decreases filters.len() - i,
    {
        let ghost before = told@;
        let one = ask(&filters[i], area, pos, cell);
        told.push(one);
        proof {
            assert(views_of(filters@)[i as int] == filters@[i as int]@);
            assert forall|j: int| 0 <= j <= i implies (#[trigger] told_views(told@)[j]).tells(
                views_of(filters@)[j],
            ) by {
                if j < i {
                    assert(told@[j] == before[j]);
                    assert(told_views(told@)[j] == told_views(before)[j]);
                } else {
                    assert(told_views(told@)[j] == one@);
                }
            }
        }
        i = i + 1;
    }
    told
}

/// The area that the filter works in when it is bound to `area`, with the slot that its
/// layout has told.
fn resolve_with(area: Rect, mode: &CellFilter, told: &Told) -> (inner: Rect)
    ensures
        inner == mode@.resolved_with(area, told@),
    decreases mode,
{
    match mode {
        CellFilter::Inner(margin) => area.inner(*margin),
        CellFilter::Outer(margin) => area.inner(*margin),
        CellFilter::Not(m) => match told {
            Told::Of(t) => resolve_with(area, m, t),
            _ => area,
        },
        CellFilter::Layout(_, _) => match told {
            Told::Slot(r) => *r,
            _ => area,
        },
        _ => area,
    }
}

/// Whether the position passes the filter working in `area`, the tests of the caller
/// having told `told`.
fn position_test(area: Rect, pos: Position, mode: &CellFilter, told: &Told) -> (r: bool)
    ensures
        r == mode@.position_value(area, pos, told@),
        told@.tells(mode@) ==> (mode@.position_verdict(area, pos) matches Some(b) ==> r == b),
    decreases mode, 0int,
{
    match mode {
        CellFilter::Outer(_) => !area.contains(pos),
        CellFilter::AllOf(s) => match told {
            Told::Each(t) => {
                if t.len() != s.len() {
                    assert(told_views(t@).len() != views_of(s@).len());
                    assert(told@ == ToldView::Each(told_views(t@)));
                    return false;
                }
                let n = count_positions(area, pos, s, t);
                proof {
                    lemma_list_position(views_of(s@), told_views(t@), area, pos);
                }
                n == s.len()
            },
            _ => false,
        },
        CellFilter::AnyOf(s) => match told {
            Told::Each(t) => {
                if t.len() != s.len() {
                    assert(told_views(t@).len() != views_of(s@).len());
                    assert(told@ == ToldView::Each(told_views(t@)));
                    return false;
                }
                let n = count_positions(area, pos, s, t);
                proof {
                    lemma_list_position(views_of(s@), told_views(t@), area, pos);
                }
                n > 0
            },
            _ => false,
        },
        CellFilter::NoneOf(s) => match told {
            Told::Each(t) => {
                if t.len() != s.len() {
                    assert(told_views(t@).len() != views_of(s@).len());
                    assert(told@ == ToldView::Each(told_views(t@)));
                    return false;
                }
                let n = count_positions(area, pos, s, t);
                proof {
                    lemma_list_position(views_of(s@), told_views(t@), area, pos);
                }
                n == 0
            },
            _ => false,
        },
        CellFilter::Not(m) => match told {
            Told::Of(t) => !position_test(area, pos, m, t),
            _ => false,
        },
        CellFilter::PositionFn(_) => match told {
            Told::Answer(b) => *b,
            _ => false,
        },
        _ => area.contains(pos),
    }
}

/// How many filters of the list the position passes, each bound to `area`.
fn count_positions(area: Rect, pos: Position, filters: &Vec<CellFilter>, told: &Vec<Told>) -> (n:
    usize)
    requires
        told@.len() == filters@.len(),
    ensures
        n == passed_upto(views_of(filters@), told_views(told@), area, pos, filters@.len() as int),
        forall|i: int|
            0 <= i < filters@.len() && (#[trigger] told_views(told@)[i]).tells(views_of(filters@)[i])
                ==> (views_of(filters@)[i].bound_position_verdict(area, pos) matches Some(b)
                ==> b == views_of(filters@)[i].bound_position_value(area, pos, told_views(told@)[i])),
    decreases filters, 1int,
{
    let mut n: usize = 0;
    let mut i: usize = 0;
    while i < filters.len()
        invariant
            0 <= i <= filters.len(),
            told@.len() == filters@.len(),
            n <= i,
            n == passed_upto(views_of(filters@), told_views(told@), area, pos, i as int),
            forall|j: int|
                0 <= j < i && (#[trigger] told_views(told@)[j]).tells(views_of(filters@)[j]) ==> (
                views_of(filters@)[j].bound_position_verdict(area, pos) matches Some(b) ==> b
                    == views_of(filters@)[j].bound_position_value(area, pos, told_views(told@)[j])),
        decreases filters.len() - i,
    {
        let child = &filters[i];
        let heard = &told[i];
        proof {
            assert(views_of(filters@)[i as int] == child@);
            assert(told_views(told@)[i as int] == heard@);
            if heard@.tells(child@) {
                lemma_resolved_with(child@, area, heard@);
            }
        }
        let inner = resolve_with(area, child, heard);
        let passes = position_test(inner, pos, child, heard);
        proof {
            let v = views_of(filters@);
            let t = told_views(told@);
            assert(v[i as int].bound_position_value(area, pos, t[i as int]) == passes);
            assert(passed_upto(v, t, area, pos, i + 1) == passed_upto(v, t, area, pos, i as int)
                + if v[i as int].bound_position_value(area, pos, t[i as int]) {
                1int
            } else {
                0int
            });
        }
        if passes {
            n = n + 1;
        }
        i = i + 1;
    }
    n
}

/// Whether the content of the cell passes the filter, the tests of the caller having told
/// `told`.
fn content_test(cell: &Cell, mode: &CellFilter, told: &Told) -> (r: bool)
    ensures
        r == mode@.content_value(cell@, told@),
        told@.tells(mode@) ==> (mode@.content_verdict(cell@) matches Some(b) ==> r == b),
    decreases mode, 0int,
{
    match mode {
        CellFilter::Text => {
            if cell.symbol().unicode_len() == 1 {
                let ch = cell.symbol().get_char(0);
                letter(ch) || number(ch) || ch == ' ' || ch == '?' || ch == '!' || ch == '.' || ch
                    == ',' || ch == ':' || ch == ';'
            } else {
                false
            }
        },
        CellFilter::AllOf(s) => match told {
            Told::Each(t) => {
                if t.len() != s.len() {
                    assert(told_views(t@).len() != views_of(s@).len());
                    assert(told@ == ToldView::Each(told_views(t@)));
                    return false;
                }
                let n = count_contents(cell, s, t);
                proof {
                    lemma_list_content(views_of(s@), told_views(t@), cell@);
                }
                n == s.len()
            },
            _ => false,
        },
        CellFilter::FgColor(color) => cell.fg == *color,
        CellFilter::BgColor(color) => cell.bg == *color,
        CellFilter::Not(m) => match told {
            Told::Of(t) => !content_test(cell, m, t),
            _ => false,
        },
        CellFilter::EvalCell(_) => match told {
            Told::Answer(b) => *b,
            _ => false,
        },
        _ => true,
    }
}

/// How many filters of the list the content of the cell passes.
fn count_contents(cell: &Cell, filters: &Vec<CellFilter>, told: &Vec<Told>) -> (n: usize)
    requires
        told@.len() == filters@.len(),
    ensures
        n == content_upto(views_of(filters@), told_views(told@), cell@, filters@.len() as int),
        forall|i: int|
            0 <= i < filters@.len() && (#[trigger] told_views(told@)[i]).tells(views_of(filters@)[i])
                ==> (views_of(filters@)[i].content_verdict(cell@) matches Some(b) ==> b
                == views_of(filters@)[i].content_value(cell@, told_views(told@)[i])),
    decreases filters, 1int,
{
    let mut n: usize = 0;
    let mut i: usize = 0;
    while i < filters.len()
        invariant
            0 <= i <= filters.len(),
            told@.len() == filters@.len(),
            n <= i,
            n == content_upto(views_of(filters@), told_views(told@), cell@, i as int),
            forall|j: int|
                0 <= j < i && (#[trigger] told_views(told@)[j]).tells(views_of(filters@)[j]) ==> (
                views_of(filters@)[j].content_verdict(cell@) matches Some(b) ==> b == views_of(
                    filters@,
                )[j].content_value(cell@, told_views(told@)[j])),
        decreases filters.len() - i,
    {
        proof {
            assert(views_of(filters@)[i as int] == filters@[i as int]@);
            assert(told_views(told@)[i as int] == told@[i as int]@);
        }
        let passes = content_test(cell, &filters[i], &told[i]);
        proof {
            let v = views_of(filters@);
            let t = told_views(told@);
            assert(v[i as int].content_value(cell@, t[i as int]) == passes);
            assert(content_upto(v, t, cell@, i + 1) == content_upto(v, t, cell@, i as int) + if v[i as int].content_value(
                cell@,
                t[i as int],
            ) {
                1int
            } else {
                0int
            });
        }
        if passes {
            n = n + 1;
        }
        i = i + 1;
    }
    n
}

/// What was told for each filter of a list is what was told for a list of these filters.
pub proof fn lemma_each_tells(s: Seq<FilterView>, t: Seq<ToldView>)
    requires
        t.len() == s.len(),
        forall|i: int| 0 <= i < t.len() ==> (#[trigger] t[i]).tells(s[i]),
    ensures
        ToldView::Each(t).tells(FilterView::AllOf(s)),
        ToldView::Each(t).tells(FilterView::AnyOf(s)),
        ToldView::Each(t).tells(FilterView::NoneOf(s)),
{
}

/// What a list of filters makes of the position is its verdict, wherever what was told
/// has the shape of the list and the verdict is there.
pub proof fn lemma_list_position(s: Seq<FilterView>, t: Seq<ToldView>, area: Rect, pos: Position)
    requires
        t.len() == s.len(),
        forall|i: int|
            0 <= i < s.len() && (#[trigger] t[i]).tells(s[i]) ==> (s[i].bound_position_verdict(
                area,
                pos,
            ) matches Some(b) ==> b == s[i].bound_position_value(area, pos, t[i])),
    ensures
        ToldView::Each(t).tells(FilterView::AllOf(s)) ==> (FilterView::AllOf(s).position_verdict(
            area,
            pos,
        ) matches Some(b) ==> b == (passed_upto(s, t, area, pos, s.len() as int) == s.len())),
        ToldView::Each(t).tells(FilterView::AnyOf(s)) ==> (FilterView::AnyOf(s).position_verdict(
            area,
            pos,
        ) matches Some(b) ==> b == (passed_upto(s, t, area, pos, s.len() as int) > 0)),
        ToldView::Each(t).tells(FilterView::NoneOf(s)) ==> (FilterView::NoneOf(s).position_verdict(
            area,
            pos,
        ) matches Some(b) ==> b == (passed_upto(s, t, area, pos, s.len() as int) == 0)),
{
    lemma_passed_upto(s, t, area, pos, s.len() as int);
    if forall|i: int| 0 <= i < t.len() ==> (#[trigger] t[i]).tells(s[i]) {
        assert forall|i: int| 0 <= i < s.len() implies (#[trigger] s[i]).bound_position_verdict(
            area,
            pos,
        ) == Some(true) ==> s[i].bound_position_value(area, pos, t[i]) by {
            assert(t[i].tells(s[i]));
        }
        assert forall|i: int| 0 <= i < s.len() implies (#[trigger] s[i]).bound_position_verdict(
            area,
            pos,
        ) == Some(false) ==> !s[i].bound_position_value(area, pos, t[i]) by {
            assert(t[i].tells(s[i]));
        }
    }
}

/// What a list of filters that must all match makes of the content is its verdict,
/// wherever what was told has the shape of the list and the verdict is there.
pub proof fn lemma_list_content(s: Seq<FilterView>, t: Seq<ToldView>, cell: CellView)
    requires
        t.len() == s.len(),
        forall|i: int|
            0 <= i < s.len() && (#[trigger] t[i]).tells(s[i]) ==> (s[i].content_verdict(
                cell,
            ) matches Some(b) ==> b == s[i].content_value(cell, t[i])),
    ensures
        ToldView::Each(t).tells(FilterView::AllOf(s)) ==> (FilterView::AllOf(s).content_verdict(
            cell,
        ) matches Some(b) ==> b == (content_upto(s, t, cell, s.len() as int) == s.len())),
{
    lemma_content_upto(s, t, cell, s.len() as int);
    if forall|i: int| 0 <= i < t.len() ==> (#[trigger] t[i]).tells(s[i]) {
        assert forall|i: int| 0 <= i < s.len() implies (#[trigger] s[i]).content_verdict(cell)
            == Some(true) ==> s[i].content_value(cell, t[i]) by {
            assert(t[i].tells(s[i]));
        }
        assert forall|i: int| 0 <= i < s.len() implies (#[trigger] s[i]).content_verdict(cell)
            == Some(false) ==> !s[i].content_value(cell, t[i]) by {
            assert(t[i].tells(s[i]));
        }
    }
}

/// Where the filter by itself says which area it works in, that is the area that it
/// works in with what it was told.
pub proof fn lemma_resolved_with(f: FilterView, area: Rect, told: ToldView)
    requires
        told.tells(f),
    ensures
        f.resolved(area) matches Some(r) ==> f.resolved_with(area, told) == r,
    decreases f,
{
    if let FilterView::Not(m) = f {
        if let ToldView::Of(t) = told {
            lemma_resolved_with(*m, area, *t);
        }
    }
}

/// Of the first `n` filters, as many pass as `passed_upto` counts: all of them exactly
/// when each passes, none exactly when none does.
pub proof fn lemma_passed_upto(
    filters: Seq<FilterView>,
    told: Seq<ToldView>,
    area: Rect,
    pos: Position,
    n: int,
)
    requires
        0 <= n <= filters.len(),
    ensures
        0 <= passed_upto(filters, told, area, pos, n) <= n,
        passed_upto(filters, told, area, pos, n) == n <==> forall|i: int|
            0 <= i < n ==> (#[trigger] filters[i]).bound_position_value(area, pos, told[i]),
        passed_upto(filters, told, area, pos, n) == 0 <==> forall|i: int|
            0 <= i < n ==> !(#[trigger] filters[i]).bound_position_value(area, pos, told[i]),
    decreases n,
{
    if n > 0 {
        lemma_passed_upto(filters, told, area, pos, n - 1);
    }
}

/// Of the first `n` filters, as many pass as `content_upto` counts: all of them exactly
/// when each passes.
pub proof fn lemma_content_upto(filters: Seq<FilterView>, told: Seq<ToldView>, cell: CellView, n: int)
    requires
        0 <= n <= filters.len(),
    ensures
        0 <= content_upto(filters, told, cell, n) <= n,
        content_upto(filters, told, cell, n) == n <==> forall|i: int|
            0 <= i < n ==> (#[trigger] filters[i]).content_value(cell, told[i]),
    decreases n,
{
    if n > 0 {
        lemma_content_upto(filters, told, cell, n - 1);
    }
}

/// A list of filters of which none may match passes no position that one of the two
/// passes, whatever the tests of the caller have told.
pub proof fn lemma_none_of_two(
    a: FilterView,
    b: FilterView,
    told_a: ToldView,
    told_b: ToldView,
    area: Rect,
    pos: Position,
)
    requires
        a.bound_position_value(area, pos, told_a) || b.bound_position_value(area, pos, told_b),
    ensures
        !FilterView::NoneOf(seq![a, b]).position_value(
            area,
            pos,
            ToldView::Each(seq![told_a, told_b]),
        ),
{
    let s = seq![a, b];
    let t = seq![told_a, told_b];
    lemma_passed_upto(s, t, area, pos, 2);
    if a.bound_position_value(area, pos, told_a) {
        assert(s[0].bound_position_value(area, pos, t[0]));
    } else {
        assert(s[1].bound_position_value(area, pos, t[1]));
    }
}

/// A list of filters of which any may match passes every position that one of the two
/// passes, whatever the tests of the caller have told.
pub proof fn lemma_any_of_two(
    a: FilterView,
    b: FilterView,
    told_a: ToldView,
    told_b: ToldView,
    area: Rect,
    pos: Position,
)
    ensures
        FilterView::AnyOf(seq![a, b]).position_value(area, pos, ToldView::Each(seq![told_a, told_b]))
            == (a.bound_position_value(area, pos, told_a) || b.bound_position_value(
            area,
            pos,
            told_b,
        )),
{
    let s = seq![a, b];
    let t = seq![told_a, told_b];
    lemma_passed_upto(s, t, area, pos, 2);
    assert(s[0] == a && s[1] == b && t[0] == told_a && t[1] == told_b);
    if !a.bound_position_value(area, pos, told_a) && !b.bound_position_value(area, pos, told_b) {
        assert forall|i: int| 0 <= i < 2 implies !(#[trigger] s[i]).bound_position_value(
            area,
            pos,
            t[i],
        ) by {}
    } else if a.bound_position_value(area, pos, told_a) {
        assert(s[0].bound_position_value(area, pos, t[0]));
    } else {
        assert(s[1].bound_position_value(area, pos, t[1]));
    }
}

/// A filter negated twice passes what the filter itself passes, position and content,
/// whatever the tests of the caller have told.
pub proof fn lemma_not_not(a: FilterView, told: ToldView, area: Rect, pos: Position, cell: CellView)
    ensures
        ({
            let twice = FilterView::Not(Box::new(FilterView::Not(Box::new(a))));
            let heard = ToldView::Of(Box::new(ToldView::Of(Box::new(told))));
            &&& twice.bound_position_value(area, pos, heard) == a.bound_position_value(
                area,
                pos,
                told,
            )
            &&& twice.content_value(cell, heard) == a.content_value(cell, told)
        }),
{
    let once = FilterView::Not(Box::new(a));
    let twice = FilterView::Not(Box::new(once));
    let heard_once = ToldView::Of(Box::new(told));
    let heard = ToldView::Of(Box::new(heard_once));
    assert(once.resolved_with(area, heard_once) == a.resolved_with(area, told));
    assert(twice.resolved_with(area, heard) == once.resolved_with(area, heard_once));
    let inner = a.resolved_with(area, told);
    assert(once.position_value(inner, pos, heard_once) == !a.position_value(inner, pos, told));
    assert(twice.position_value(inner, pos, heard) == !once.position_value(inner, pos, heard_once));
    assert(once.content_value(cell, heard_once) == !a.content_value(cell, told));
    assert(twice.content_value(cell, heard) == !once.content_value(cell, heard_once));
}

/// A list of filters of which none may match rejects what one of them accepts.
pub proof fn lemma_none_of_rejects(
    a: FilterView,
    b: FilterView,
    area: Rect,
    pos: Position,
    cell: CellView,
)
    requires
        a.accepts(area, pos, cell) == Some(true),
    ensures
        FilterView::NoneOf(seq![a, b]).accepts(area, pos, cell) == Some(false),
{
    assert(seq![a, b][0].bound_position_verdict(area, pos) == Some(true));
}

/// A list of filters of which any may match accepts what one of them accepts.
pub proof fn lemma_any_of_accepts(
    a: FilterView,
    b: FilterView,
    area: Rect,
    pos: Position,
    cell: CellView,
)
    requires
        a.accepts(area, pos, cell) == Some(true) || b.accepts(area, pos, cell) == Some(true),
    ensures
        FilterView::AnyOf(seq![a, b]).accepts(area, pos, cell) == Some(true),
{
    if a.accepts(area, pos, cell) == Some(true) {
        assert(seq![a, b][0].bound_position_verdict(area, pos) == Some(true));
    } else {
        assert(seq![a, b][1].bound_position_verdict(area, pos) == Some(true));
    }
}

/// Negating a filter twice gives a filter with the verdicts of the filter itself.
pub proof fn lemma_double_negation(a: FilterView, area: Rect, pos: Position, cell: CellView)
    ensures
        FilterView::Not(Box::new(FilterView::Not(Box::new(a)))).accepts(area, pos, cell)
            == a.accepts(area, pos, cell),
{
    let inner = FilterView::Not(Box::new(a));
    let outer = FilterView::Not(Box::new(inner));
    assert(inner.resolved(area) == a.resolved(area));
    assert(outer.resolved(area) == a.resolved(area));
    if let Some(r) = a.resolved(area) {
        assert(inner.position_verdict(r, pos) == negated(a.position_verdict(r, pos)));
        assert(outer.position_verdict(r, pos) == negated(inner.position_verdict(r, pos)));
    }
    assert(inner.content_verdict(cell) == negated(a.content_verdict(cell)));
    assert(outer.content_verdict(cell) == negated(inner.content_verdict(cell)));
}

} // verus!
