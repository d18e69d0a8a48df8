use ratatui::layout::{Constraint, Layout, Margin, Position, Rect};
use ratatui::style::Color;
use tachyonfx::{Cell, CellFilter};

#[test]
fn test_cell_filter_to_string() {
    let filter = CellFilter::FgColor(Color::Red);
    assert_eq!(filter.to_string(), "fg(#800000)");

    let filter = CellFilter::BgColor(Color::Green);
    assert_eq!(filter.to_string(), "bg(#008000)");

    let filter = CellFilter::Inner(Margin::new(1, 1));
    assert_eq!(filter.to_string(), "inner(1:1)");

    let filter = CellFilter::Outer(Margin::new(3, 4));
    assert_eq!(filter.to_string(), "outer(3:4)");

    let filter = CellFilter::Text;
    assert_eq!(filter.to_string(), "text");

    let filter = CellFilter::AllOf(vec![
        CellFilter::FgColor(Color::Red),
        CellFilter::BgColor(Color::Green),
    ]);
    assert_eq!(filter.to_string(), "all_of(fg(#800000), bg(#008000))");

    let filter = CellFilter::AnyOf(vec![
        CellFilter::FgColor(Color::Red),
        CellFilter::BgColor(Color::Green),
    ]);
    assert_eq!(filter.to_string(), "any_of(fg(#800000), bg(#008000))");

    let filter = CellFilter::NoneOf(vec![
        CellFilter::FgColor(Color::Red),
        CellFilter::BgColor(Color::Green),
    ]);
    assert_eq!(filter.to_string(), "none_of(fg(#800000), bg(#008000))");

    let filter = CellFilter::Not(Box::new(CellFilter::FgColor(Color::Red)));
    assert_eq!(filter.to_string(), "!fg(#800000)");

    let filter = CellFilter::Layout(Layout::horizontal(Vec::<Constraint>::new()), 0);
    assert_eq!(filter.to_string(), "layout(0)");

    let filter = CellFilter::position_fn(|_| true);
    assert_eq!(filter.to_string(), "position_fn");

    let filter = CellFilter::eval_cell(|_| true);
    assert_eq!(filter.to_string(), "eval_cell");
}

#[test]
fn to_string_of_other_colors_and_nested_filters() {
    assert_eq!(CellFilter::All.to_string(), "all");
    assert_eq!(CellFilter::FgColor(Color::Rgb(1, 171, 255)).to_string(), "fg(#01abff)");
    assert_eq!(CellFilter::FgColor(Color::Indexed(16)).to_string(), "fg(#000000)");
    assert_eq!(CellFilter::FgColor(Color::Indexed(231)).to_string(), "fg(#ffffff)");
    assert_eq!(CellFilter::FgColor(Color::Indexed(196)).to_string(), "fg(#ff0000)");
    assert_eq!(CellFilter::FgColor(Color::Indexed(244)).to_string(), "fg(#808080)");
    assert_eq!(CellFilter::BgColor(Color::Indexed(9)).to_string(), "bg(#ff0000)");
    assert_eq!(CellFilter::Layout(Layout::default(), 65535).to_string(), "layout(65535)");
    assert_eq!(CellFilter::AllOf(vec![]).to_string(), "all_of()");
    assert_eq!(CellFilter::AnyOf(vec![CellFilter::Text]).to_string(), "any_of(text)");
    let nested = CellFilter::Not(Box::new(CellFilter::NoneOf(vec![
        CellFilter::Inner(Margin::new(0, 12)),
        CellFilter::AllOf(vec![CellFilter::Text, CellFilter::All, CellFilter::Text]),
    ])));
    assert_eq!(nested.to_string(), "!none_of(inner(0:12), all_of(text, all, text))");
}

fn cell(symbol: &str, fg: Color, bg: Color) -> Cell {
    let mut c = Cell::new(symbol);
    c.set_fg(fg);
    c.set_bg(bg);
    c
}

const AREA: Rect = Rect { x: 2, y: 1, width: 6, height: 4 };

fn accepts(filter: &CellFilter, x: u16, y: u16, c: &Cell) -> bool {
    filter.selector(AREA).is_valid(Position::new(x, y), c)
}

#[test]
fn all_accepts_positions_of_the_area_only() {
    let c = Cell::new("x");
    assert!(accepts(&CellFilter::All, 2, 1, &c));
    assert!(accepts(&CellFilter::All, 7, 4, &c));
    assert!(!accepts(&CellFilter::All, 8, 4, &c));
    assert!(!accepts(&CellFilter::All, 7, 5, &c));
    assert!(!accepts(&CellFilter::All, 1, 1, &c));
    assert!(!accepts(&CellFilter::All, 2, 0, &c));
}

#[test]
fn margins_select_the_inside_and_the_outside() {
    let c = Cell::new("x");
    let inner = CellFilter::Inner(Margin::new(1, 1));
    let outer = CellFilter::Outer(Margin::new(1, 1));
    assert_eq!(inner.selector(AREA).inner_area(), Rect::new(3, 2, 4, 2));
    assert!(accepts(&inner, 3, 2, &c));
    assert!(accepts(&inner, 6, 3, &c));
    assert!(!accepts(&inner, 2, 2, &c));
    assert!(!accepts(&inner, 7, 3, &c));
    assert!(!accepts(&outer, 3, 2, &c));
    assert!(accepts(&outer, 2, 1, &c));
    assert!(accepts(&outer, 7, 4, &c));
    // the outside of the inner area has no bound
    assert!(accepts(&outer, 100, 100, &c));
    // a margin that leaves nothing selects nothing inside
    let nothing = CellFilter::Inner(Margin::new(3, 3));
    assert_eq!(nothing.selector(AREA).inner_area(), Rect::new(0, 0, 0, 0));
    assert!(!accepts(&nothing, 4, 2, &c));
}

#[test]
fn colors_are_compared_exactly() {
    let c = cell("x", Color::Red, Color::Indexed(1));
    assert!(accepts(&CellFilter::FgColor(Color::Red), 2, 1, &c));
    assert!(!accepts(&CellFilter::FgColor(Color::Indexed(1)), 2, 1, &c));
    assert!(!accepts(&CellFilter::FgColor(Color::Rgb(128, 0, 0)), 2, 1, &c));
    assert!(accepts(&CellFilter::BgColor(Color::Indexed(1)), 2, 1, &c));
    assert!(!accepts(&CellFilter::BgColor(Color::Red), 2, 1, &c));
    assert!(!accepts(&CellFilter::FgColor(Color::Red), 0, 0, &c));
}

#[test]
fn text_is_one_letter_digit_blank_or_punctuation() {
    for symbol in ["a", "Z", "7", " ", "?", "!", ".", ",", ":", ";", "é", "ß", "٣"] {
        assert!(accepts(&CellFilter::Text, 2, 1, &Cell::new(symbol)), "{symbol:?}");
    }
    for symbol in ["", "ab", "-", "#", "│", "█", "1 ", "\u{1F600}"] {
        assert!(!accepts(&CellFilter::Text, 2, 1, &Cell::new(symbol)), "{symbol:?}");
    }
}

#[test]
fn none_of_rejects_what_one_of_its_filters_accepts() {
    let red = cell("a", Color::Red, Color::Reset);
    let a = CellFilter::FgColor(Color::Red);
    let b = CellFilter::Text;
    assert!(accepts(&a, 3, 3, &red));
    assert!(!accepts(&CellFilter::NoneOf(vec![a.clone(), b.clone()]), 3, 3, &red));
    assert!(!accepts(&CellFilter::NoneOf(vec![b, a]), 3, 3, &red));
    // outside the area no filter of the list matches the position
    let outside = CellFilter::NoneOf(vec![CellFilter::All, CellFilter::Text]);
    assert!(accepts(&outside, 0, 0, &red));
}

#[test]
fn any_of_accepts_what_one_of_its_filters_accepts() {
    let c = cell("a", Color::Blue, Color::Reset);
    let inner = CellFilter::Inner(Margin::new(2, 1));
    let text = CellFilter::Text;
    assert!(!accepts(&inner, 2, 1, &c));
    assert!(accepts(&text, 2, 1, &c));
    assert!(accepts(&CellFilter::AnyOf(vec![inner.clone(), text.clone()]), 2, 1, &c));
    assert!(accepts(&CellFilter::AnyOf(vec![text, inner]), 2, 1, &c));
    assert!(!accepts(&CellFilter::AnyOf(vec![]), 2, 1, &c));
}

#[test]
fn all_of_asks_position_and_content_of_every_filter() {
    let red = cell("a", Color::Red, Color::Reset);
    let blue = cell("a", Color::Blue, Color::Reset);
    let filter = CellFilter::AllOf(vec![
        CellFilter::Inner(Margin::new(1, 1)),
        CellFilter::FgColor(Color::Red),
        CellFilter::Text,
    ]);
    assert!(accepts(&filter, 3, 2, &red));
    assert!(!accepts(&filter, 2, 2, &red));
    assert!(!accepts(&filter, 3, 2, &blue));
    assert!(accepts(&CellFilter::AllOf(vec![]), 3, 2, &blue));
}

#[test]
fn not_not_is_the_filter_itself() {
    let red = cell("a", Color::Red, Color::Reset);
    let blue = cell("#", Color::Blue, Color::Reset);
    for filter in [
        CellFilter::All,
        CellFilter::Text,
        CellFilter::FgColor(Color::Red),
        CellFilter::Inner(Margin::new(1, 1)),
        CellFilter::Outer(Margin::new(1, 1)),
        CellFilter::AllOf(vec![CellFilter::Text, CellFilter::FgColor(Color::Red)]),
    ] {
        let twice = CellFilter::Not(Box::new(CellFilter::Not(Box::new(filter.clone()))));
        for (x, y) in [(0, 0), (2, 1), (3, 2), (7, 4), (8, 5)] {
            for c in [&red, &blue] {
                assert_eq!(accepts(&twice, x, y, c), accepts(&filter, x, y, c));
            }
        }
    }
}

#[test]
fn not_turns_both_tests_round() {
    let red = cell("a", Color::Red, Color::Reset);
    let blue = cell("a", Color::Blue, Color::Reset);
    let not_red = CellFilter::Not(Box::new(CellFilter::FgColor(Color::Red)));
    // the position must fail the filter's position test, the content its content test
    assert!(accepts(&not_red, 0, 0, &blue));
    assert!(!accepts(&not_red, 0, 0, &red));
    assert!(!accepts(&not_red, 3, 2, &blue));
}

#[test]
fn tests_of_the_caller_are_asked() {
    let c = Cell::new("q");
    let even = CellFilter::position_fn(|p| p.x % 2 == 0);
    assert!(accepts(&even, 4, 2, &c));
    assert!(!accepts(&even, 5, 2, &c));
    // a test on positions is asked wherever the position lies
    assert!(accepts(&even, 100, 2, &c));
    let q = CellFilter::eval_cell(|cell| cell.symbol() == "q");
    assert!(accepts(&q, 4, 2, &c));
    assert!(!accepts(&q, 4, 2, &Cell::new("r")));
    assert!(!accepts(&q, 0, 0, &c));
    let copy = q.clone();
    assert!(accepts(&copy, 4, 2, &c));
}

#[test]
fn layout_slot_is_the_area_of_the_filter() {
    let c = Cell::new("x");
    let halves = Layout::horizontal([Constraint::Length(2), Constraint::Length(4)]);
    let first = CellFilter::Layout(halves.clone(), 0);
    let second = CellFilter::Layout(halves.clone(), 1);
    assert_eq!(first.selector(AREA).inner_area(), Rect::new(2, 1, 2, 4));
    assert_eq!(second.selector(AREA).inner_area(), Rect::new(4, 1, 4, 4));
    assert!(accepts(&first, 3, 2, &c));
    assert!(!accepts(&first, 4, 2, &c));
    assert!(accepts(&second, 4, 2, &c));
    // a slot that the layout does not have selects nothing
    let missing = CellFilter::Layout(halves, 2);
    assert_eq!(missing.selector(AREA).inner_area(), Rect::new(0, 0, 0, 0));
    assert!(!accepts(&missing, 3, 2, &c));
}

#[test]
fn margin_and_layout_slot_are_each_bound_to_the_area_of_their_list() {
    let c = Cell::new("x");
    let halves = Layout::horizontal([Constraint::Length(2), Constraint::Length(4)]);
    let outer = CellFilter::Outer(Margin::new(1, 1));
    let slot = CellFilter::Layout(halves, 1);
    // neither filter narrows the area for the other: the slot is cut from the whole area,
    // the margin is that of the whole area, and the order in the list does not matter
    let one = CellFilter::AllOf(vec![outer.clone(), slot.clone()]);
    let other = CellFilter::AllOf(vec![slot, outer]);
    assert_eq!(one.selector(AREA).inner_area(), AREA);
    assert_eq!(other.selector(AREA).inner_area(), AREA);
    for filter in [&one, &other] {
        // in the slot and on the border of the whole area
        assert!(accepts(filter, 4, 1, &c));
        assert!(accepts(filter, 7, 2, &c));
        assert!(accepts(filter, 5, 4, &c));
        // in the slot, but inside the margin
        assert!(!accepts(filter, 4, 2, &c));
        assert!(!accepts(filter, 6, 3, &c));
        // on the border, but in the other slot
        assert!(!accepts(filter, 2, 1, &c));
        assert!(!accepts(filter, 3, 4, &c));
    }
}

#[test]
fn lists_and_negations_work_on_what_the_tests_of_the_caller_answer() {
    let c = Cell::new("q");
    let even = CellFilter::position_fn(|p| p.x % 2 == 0);
    let is_q = CellFilter::eval_cell(|cell| cell.symbol() == "q");
    let not_even = CellFilter::Not(Box::new(even.clone()));
    // a negation turns the content test round too, and a test on positions asks nothing
    // of the content
    assert!(!accepts(&not_even, 4, 2, &c));
    assert!(!accepts(&not_even, 5, 2, &c));
    let both = CellFilter::AllOf(vec![even.clone(), is_q.clone()]);
    assert!(accepts(&both, 4, 2, &c));
    assert!(!accepts(&both, 5, 2, &c));
    assert!(!accepts(&both, 4, 2, &Cell::new("r")));
    let either = CellFilter::AnyOf(vec![even.clone(), CellFilter::Inner(Margin::new(1, 1))]);
    assert!(accepts(&either, 2, 1, &c));
    assert!(accepts(&either, 3, 2, &c));
    assert!(!accepts(&either, 7, 1, &c));
    let neither = CellFilter::NoneOf(vec![even, CellFilter::Inner(Margin::new(1, 1))]);
    assert!(accepts(&neither, 7, 1, &c));
    assert!(!accepts(&neither, 2, 1, &c));
    assert!(!accepts(&neither, 3, 2, &c));
    let not_q = CellFilter::Not(Box::new(is_q));
    assert!(accepts(&not_q, 0, 0, &Cell::new("r")));
    assert!(!accepts(&not_q, 0, 0, &c));
}
