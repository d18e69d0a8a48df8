use ratatui::buffer::Buffer;
use ratatui::style::Color;
use tachyonfx::fx::{
    fade_from, fade_from_fg, fade_to, fade_to_fg, slide_in, slide_out, sweep_in, sweep_out,
};
use tachyonfx::interpolation::ALPHA_ONE;
use ratatui::layout::{Offset, Rect, Size};
use tachyonfx::fx;
use tachyonfx::{color_ext, ref_count, CellFilter, Duration, Effect, Interpolation, Motion};

const DIRECTIONS: [Motion; 4] = [
    Motion::DownToUp,
    Motion::UpToDown,
    Motion::LeftToRight,
    Motion::RightToLeft,
];

#[test]
fn test_name_fade() {
    assert_eq!(fade_to(Color::Red, Color::Green, 1000).name(), "fade_to");

    assert_eq!(fade_from_fg(Color::Red, 1000).name(), "fade_from");

    assert_eq!(fade_to(Color::Red, Color::Green, 1000).reversed().name(), "fade_from");

    assert_eq!(fade_from_fg(Color::Red, 1000).reversed().name(), "fade_to");
}

#[test]
fn test_name_sweep() {
    let c = Color::Red;

    DIRECTIONS.iter().for_each(|dir| {
        assert_eq!(
            sweep_out(*dir, 1, 0, c, 1000).name(),
            "sweep_out",
            "testing for direction={:?}",
            dir
        );
    });

    DIRECTIONS.iter().for_each(|dir| {
        assert_eq!(
            sweep_out(*dir, 1, 0, c, 1000).reversed().name(),
            "sweep_in",
            "testing reversed() for direction={:?}",
            dir
        );
    });

    DIRECTIONS.iter().for_each(|dir| {
        assert_eq!(
            sweep_in(*dir, 1, 0, c, 1000).name(),
            "sweep_in",
            "testing for direction={:?}",
            dir
        );
    });

    DIRECTIONS.iter().for_each(|dir| {
        assert_eq!(
            sweep_in(*dir, 1, 0, c, 1000).reversed().name(),
            "sweep_out",
            "testing reversed() for direction={:?}",
            dir
        );
    });
}

#[test]
fn test_name_slide() {
    let c = Color::Red;

    let directions = [
        Motion::DownToUp,
        Motion::UpToDown,
        Motion::LeftToRight,
        Motion::RightToLeft,
    ];

    directions.iter().for_each(|dir| {
        assert_eq!(
            slide_out(*dir, 1, 0, c, 1000).name(),
            "slide_out",
            "testing for direction={:?}",
            dir
        );
    });

    directions.iter().for_each(|dir| {
        assert_eq!(
            slide_out(*dir, 1, 0, c, 1000).reversed().name(),
            "slide_in",
            "testing reversed() for direction={:?}",
            dir
        );
    });

    directions.iter().for_each(|dir| {
        assert_eq!(
            slide_in(*dir, 1, 0, c, 1000).name(),
            "slide_in",
            "testing for direction={:?}",
            dir
        );
    });

    directions.iter().for_each(|dir| {
        assert_eq!(
            slide_in(*dir, 1, 0, c, 1000).reversed().name(),
            "slide_out",
            "testing reversed() for direction={:?}",
            dir
        );
    });
}

fn ms(n: u32) -> Duration {
    Duration::from_millis(n)
}

fn frame(effect: &mut Effect, n: u32, lines: [&str; 2]) -> Buffer {
    let mut buf = Buffer::with_lines(lines);
    let area = *buf.area();
    effect.process(ms(n), &mut buf, area);
    buf
}

#[test]
fn colors_between_colors() {
    let black = Color::Rgb(0, 0, 0);
    let white = Color::Rgb(255, 255, 255);
    assert_eq!(color_ext::lerp(black, white, ALPHA_ONE / 2), Color::Rgb(127, 127, 127));
    assert_eq!(color_ext::lerp(white, black, ALPHA_ONE / 2), Color::Rgb(127, 127, 127));
    assert_eq!(color_ext::lerp(Color::Rgb(10, 20, 30), Color::Rgb(30, 20, 10), ALPHA_ONE / 4),
        Color::Rgb(15, 20, 25));
    // the ends are the colors themselves, whatever they are
    assert_eq!(color_ext::lerp(Color::Red, Color::Indexed(7), 0), Color::Red);
    assert_eq!(color_ext::lerp(Color::Red, Color::Indexed(7), ALPHA_ONE), Color::Indexed(7));
    assert_eq!(color_ext::lerp(Color::Red, Color::Indexed(7), u32::MAX), Color::Indexed(7));
    assert_eq!(color_ext::lerp(Color::Red, Color::Reset, 1), Color::Rgb(127, 0, 0));
    assert_eq!(color_ext::to_rgb(Color::Gray), (192, 192, 192));
    assert_eq!(color_ext::to_rgb(Color::Indexed(21)), (0, 0, 255));
    assert_eq!(color_ext::to_rgb(Color::Indexed(232)), (8, 8, 8));
    assert_eq!(color_ext::to_rgb(Color::Indexed(255)), (238, 238, 238));
    assert_eq!(color_ext::to_rgb(Color::Indexed(110)), (135, 175, 215));
}

#[test]
fn fade_to_moves_the_colors_to_the_target() {
    let target = Color::Rgb(200, 100, 0);
    let mut fx = fade_to_fg(target, (4, Interpolation::Linear));
    let mut buf = Buffer::with_lines(["ab", "cd"]);
    let area = *buf.area();
    buf.set_style(area, ratatui::style::Style::default().fg(Color::Rgb(0, 0, 100)).bg(Color::Blue));
    let start = buf.clone();
    assert_eq!(fx.process(ms(1), &mut buf, area), None);
    for cell in buf.content() {
        assert_eq!(cell.fg, Color::Rgb(50, 25, 75));
        assert_eq!(cell.bg, Color::Blue);
    }
    let mut buf = start.clone();
    assert_eq!(fx.process(ms(3), &mut buf, area), Some(ms(0)));
    for cell in buf.content() {
        assert_eq!(cell.fg, target);
        assert_eq!(cell.bg, Color::Blue);
        assert!(cell.symbol() != " ");
    }
}

#[test]
fn fade_from_ends_with_the_cells_as_they_were() {
    let mut fx = fade_from(Color::Rgb(255, 255, 255), Color::Rgb(0, 0, 0), (2, Interpolation::Linear))
        .with_cell_selection(CellFilter::Text);
    let lines = ["a#", "cd"];
    let first = frame(&mut fx, 0, lines);
    assert_eq!(first[(0, 0)].fg, Color::Rgb(255, 255, 255));
    assert_eq!(first[(0, 0)].bg, Color::Rgb(0, 0, 0));
    assert_eq!(first[(1, 0)].fg, Color::Reset);
    let half = frame(&mut fx, 1, lines);
    assert_eq!(half[(0, 0)].fg, Color::Rgb(127, 127, 127));
    assert_eq!(half[(0, 0)].bg, Color::Rgb(0, 0, 0));
    let last = frame(&mut fx, 1, lines);
    assert_eq!(last, Buffer::with_lines(lines));
    assert!(fx.done());
}

fn colors(buf: &Buffer) -> Vec<Color> {
    buf.content().iter().map(|c| c.fg).collect()
}

#[test]
fn sweep_in_reveals_the_cells_along_its_direction() {
    let faded = Color::Rgb(0, 0, 0);
    let own = Color::Rgb(200, 200, 200);
    let make = |dir| sweep_in(dir, 0, 0, faded, (4, Interpolation::Linear));
    let mut buf = Buffer::with_lines(["abcd"]);
    let area = *buf.area();
    buf.set_style(area, ratatui::style::Style::default().fg(own).bg(own));
    let start = buf.clone();

    let mut fx = make(Motion::LeftToRight);
    let mut seen = Vec::new();
    for _ in 0..5 {
        let mut buf = start.clone();
        fx.process(ms(1), &mut buf, area);
        seen.push(colors(&buf).iter().map(|c| if *c == own { 'o' } else { '.' }).collect::<String>());
    }
    assert_eq!(seen, ["o...", "oo..", "ooo.", "oooo", "oooo"]);

    let mut fx = make(Motion::RightToLeft);
    let mut buf = start.clone();
    fx.process(ms(2), &mut buf, area);
    assert_eq!(colors(&buf), [faded, faded, own, own]);
    assert_eq!(buf[(0, 0)].bg, faded);
    assert_eq!(buf[(0, 0)].symbol(), "a");
}

#[test]
fn sweep_out_covers_the_cells_along_its_direction() {
    let faded = Color::Rgb(0, 0, 0);
    let own = Color::Rgb(200, 200, 200);
    let mut buf = Buffer::with_lines(["a", "b", "c", "d"]);
    let area = *buf.area();
    buf.set_style(area, ratatui::style::Style::default().fg(own));
    let start = buf.clone();
    let mut fx = sweep_out(Motion::UpToDown, 0, 0, faded, (4, Interpolation::Linear));
    let mut seen = Vec::new();
    for _ in 0..4 {
        let mut buf = start.clone();
        fx.process(ms(1), &mut buf, area);
        seen.push(colors(&buf).iter().map(|c| if *c == own { 'o' } else { '.' }).collect::<String>());
    }
    assert_eq!(seen, [".ooo", "..oo", "...o", "...."]);
    assert!(fx.done());
}

#[test]
fn sweep_gradient_blends_the_colors_behind_the_edge() {
    let faded = Color::Rgb(0, 0, 0);
    let own = Color::Rgb(200, 200, 200);
    let mut buf = Buffer::with_lines(["abcdefgh"]);
    let area = *buf.area();
    buf.set_style(area, ratatui::style::Style::default().fg(own));
    let mut fx = sweep_in(Motion::LeftToRight, 4, 0, faded, (12, Interpolation::Linear));
    fx.process(ms(6), &mut buf, area);
    // the edge has come six cells: behind it four cells of band, then the cells' own colors
    assert_eq!(
        colors(&buf),
        [
            own,
            own,
            own,
            Color::Rgb(150, 150, 150),
            Color::Rgb(100, 100, 100),
            Color::Rgb(50, 50, 50),
            faded,
            faded,
        ]
    );
}

#[test]
fn sweep_randomness_holds_lines_back() {
    let faded = Color::Rgb(0, 0, 0);
    let own = Color::Rgb(200, 200, 200);
    let lines: Vec<String> = (0..40).map(|_| "x".repeat(12)).collect();
    let mut buf = Buffer::with_lines(lines);
    let area = *buf.area();
    buf.set_style(area, ratatui::style::Style::default().fg(own));
    let start = buf.clone();
    let mut fx = sweep_in(Motion::LeftToRight, 0, 6, faded, (18, Interpolation::Linear));
    fx.process(ms(9), &mut buf, area);
    let revealed: Vec<usize> = (0..40)
        .map(|y| (0..12).filter(|x| buf[(*x as u16, y as u16)].fg == own).count())
        .collect();
    assert!(revealed.iter().all(|n| (3..=9).contains(n)), "{revealed:?}");
    assert!(revealed.iter().min() < revealed.iter().max(), "{revealed:?}");
    // the same lines are held back on every frame
    let mut again = start.clone();
    fx.process(ms(0), &mut again, area);
    assert_eq!(buf, again);
    // and at the end every cell is revealed
    let mut last = start.clone();
    assert_eq!(fx.process(ms(9), &mut last, area), Some(ms(0)));
    assert_eq!(last, start);
}

fn symbols(buf: &Buffer) -> String {
    buf.content().iter().map(|c| c.symbol()).collect()
}

#[test]
fn slide_out_covers_the_cells_from_behind() {
    let behind = Color::Rgb(9, 9, 9);
    let lines = ["abcd", "efgh"];
    let mut fx = slide_out(Motion::LeftToRight, 0, 0, behind, (4, Interpolation::Linear));
    assert_eq!(symbols(&frame(&mut fx, 0, lines)), "abcdefgh");
    let buf = frame(&mut fx, 1, lines);
    assert_eq!(symbols(&buf), " bcd fgh");
    assert_eq!(buf[(0, 0)].bg, behind);
    assert_eq!(buf[(0, 0)].fg, behind);
    assert_eq!(buf[(1, 0)].bg, Color::Reset);
    assert_eq!(symbols(&frame(&mut fx, 2, lines)), "   d   h");
    assert_eq!(symbols(&frame(&mut fx, 1, lines)), "        ");
    assert!(fx.done());

    let mut fx = slide_out(Motion::RightToLeft, 0, 0, behind, (4, Interpolation::Linear));
    assert_eq!(symbols(&frame(&mut fx, 0, lines)), "abcdefgh");
    assert_eq!(symbols(&frame(&mut fx, 1, lines)), "abc efg ");
    assert_eq!(symbols(&frame(&mut fx, 3, lines)), "        ");
    assert!(fx.done());

    let mut fx = slide_out(Motion::UpToDown, 0, 0, behind, (2, Interpolation::Linear));
    assert_eq!(symbols(&frame(&mut fx, 1, lines)), "    efgh");
    let mut fx = slide_out(Motion::DownToUp, 0, 0, behind, (2, Interpolation::Linear));
    assert_eq!(symbols(&frame(&mut fx, 1, lines)), "abcd    ");
}

#[test]
fn slide_in_uncovers_the_cells() {
    let behind = Color::Rgb(9, 9, 9);
    let lines = ["abcd", "efgh"];
    // the edge of the cover moves to the right: the left side of the area shows first
    let mut fx = slide_in(Motion::LeftToRight, 0, 0, behind, (4, Interpolation::Linear));
    assert_eq!(symbols(&frame(&mut fx, 0, lines)), "        ");
    assert_eq!(symbols(&frame(&mut fx, 1, lines)), "a   e   ");
    assert_eq!(symbols(&frame(&mut fx, 3, lines)), "abcdefgh");
    let mut fx = slide_in(Motion::RightToLeft, 0, 0, behind, (4, Interpolation::Linear));
    assert_eq!(symbols(&frame(&mut fx, 1, lines)), "   d   h");
    // the edge of the cover moves upwards: the lower side of the area shows first
    let mut fx = slide_in(Motion::DownToUp, 0, 0, behind, (2, Interpolation::Linear));
    assert_eq!(symbols(&frame(&mut fx, 1, lines)), "    efgh");
    assert_eq!(symbols(&frame(&mut fx, 1, lines)), "abcdefgh");
    let mut fx = slide_in(Motion::UpToDown, 0, 0, behind, (2, Interpolation::Linear));
    assert_eq!(symbols(&frame(&mut fx, 1, lines)), "abcd    ");
}

#[test]
fn slide_shows_blocks_in_the_band() {
    let behind = Color::Rgb(9, 9, 9);
    let mut buf = Buffer::with_lines(["abcdefgh"]);
    let area = *buf.area();
    buf.set_style(area, ratatui::style::Style::default().bg(Color::Blue));
    let mut fx = slide_out(Motion::LeftToRight, 4, 0, behind, (12, Interpolation::Linear));
    fx.process(ms(6), &mut buf, area);
    assert_eq!(symbols(&buf), "   ▊▌▎gh");
    assert_eq!(buf[(3, 0)].fg, behind);
    assert_eq!(buf[(3, 0)].bg, Color::Blue);

    let mut buf = Buffer::with_lines(["abcdefgh"]);
    buf.set_style(area, ratatui::style::Style::default().bg(Color::Blue));
    let mut fx = slide_out(Motion::RightToLeft, 4, 0, behind, (12, Interpolation::Linear));
    fx.process(ms(6), &mut buf, area);
    // the cover comes from the right: the part of a cell that shows lies on its left
    assert_eq!(symbols(&buf), "abc▊▌▎  ");
    assert_eq!(buf[(3, 0)].fg, Color::Blue);
    assert_eq!(buf[(3, 0)].bg, behind);
    assert_eq!(buf[(2, 0)].bg, Color::Blue);
    assert_eq!(buf[(6, 0)].bg, behind);
}

#[test]
fn term256_colors_replaces_rgb_colors() {
    let mut fx = fx::term256_colors();
    assert_eq!(fx.name(), "term256_colors");
    let mut buf = Buffer::with_lines(["abc"]);
    let area = *buf.area();
    buf[(0, 0)].set_fg(Color::Rgb(255, 0, 0)).set_bg(Color::Rgb(0, 0, 0));
    buf[(1, 0)].set_fg(Color::Rgb(128, 128, 128)).set_bg(Color::Rgb(255, 255, 255));
    buf[(2, 0)].set_fg(Color::Red).set_bg(Color::Indexed(3));
    assert_eq!(fx.process(ms(10), &mut buf, area), None);
    assert_eq!(buf[(0, 0)].fg, Color::Indexed(196));
    assert_eq!(buf[(0, 0)].bg, Color::Indexed(16));
    assert_eq!(buf[(1, 0)].fg, Color::Indexed(243));
    assert_eq!(color_ext::as_indexed_color(Color::Rgb(100, 140, 180)), Color::Indexed(67));
    assert_eq!(buf[(1, 0)].bg, Color::Indexed(231));
    assert_eq!(buf[(2, 0)].fg, Color::Red);
    assert_eq!(buf[(2, 0)].bg, Color::Indexed(3));
    assert_eq!(buf[(2, 0)].symbol(), "c");
    assert!(fx.running());
    assert_eq!(color_ext::as_indexed_color(Color::Rgb(95, 135, 175)), Color::Indexed(67));
    assert_eq!(color_ext::as_indexed_color(Color::Rgb(8, 8, 8)), Color::Indexed(232));
    assert_eq!(color_ext::as_indexed_color(Color::Rgb(248, 248, 248)), Color::Indexed(255));
    assert_eq!(color_ext::as_indexed_color(Color::Rgb(7, 7, 7)), Color::Indexed(16));
    assert_eq!(color_ext::as_indexed_color(Color::Rgb(0, 0, 255)), Color::Indexed(21));
    assert_eq!(color_ext::as_indexed_color(Color::Reset), Color::Reset);
}

#[test]
fn term256_colors_keeps_to_its_area() {
    let mut fx = fx::term256_colors().with_area(Rect::new(1, 0, 1, 1));
    let mut buf = Buffer::with_lines(["abc"]);
    let area = *buf.area();
    buf.set_style(area, ratatui::style::Style::default().fg(Color::Rgb(0, 255, 0)));
    fx.process(ms(10), &mut buf, area);
    assert_eq!(colors(&buf), [Color::Rgb(0, 255, 0), Color::Indexed(46), Color::Rgb(0, 255, 0)]);
}

#[test]
fn resize_area_grows_the_area_to_its_size() {
    let mut fx = fx::resize_area(None, Size::new(2, 10), (4, Interpolation::Linear));
    assert_eq!(fx.name(), "resize_area");
    let mut buf = Buffer::with_lines(["abc"]);
    let area = Rect::new(5, 6, 10, 2);
    assert_eq!(fx.process(ms(0), &mut buf, area), None);
    assert_eq!(fx.area(), Some(Rect::new(5, 6, 2, 10)));
    assert_eq!(fx.process(ms(1), &mut buf, area), None);
    assert_eq!(fx.area(), Some(Rect::new(5, 6, 4, 8)));
    assert_eq!(fx.process(ms(3), &mut buf, area), Some(ms(0)));
    assert_eq!(fx.area(), Some(area));
}

#[test]
fn resize_area_resizes_the_area_of_its_effect() {
    let inner = fx::dissolve(1);
    let mut fx = fx::resize_area(Some(inner), Size::new(0, 1), (4, Interpolation::Linear));
    let mut buf = Buffer::with_lines(["abcd"]);
    let area = *buf.area();
    assert_eq!(fx.process(ms(2), &mut buf, area), None);
    assert_eq!(buf, Buffer::with_lines(["  cd"]));
    assert_eq!(fx.process(ms(2), &mut buf, area), Some(ms(0)));
    assert!(fx.done());
}

#[test]
fn translate_buf_moves_the_other_buffer() {
    let aux = ref_count(Buffer::with_lines(["xy"]));
    let mut fx = fx::translate_buf(Offset { x: 4, y: 2 }, aux.share(), (4, Interpolation::Linear));
    assert_eq!(fx.name(), "translate_buf");
    let screen = || Buffer::with_lines(["......", "......", "......"]);
    let area = *screen().area();
    let mut buf = screen();
    assert_eq!(fx.process(ms(0), &mut buf, area), None);
    assert_eq!(buf, Buffer::with_lines(["xy....", "......", "......"]));
    let mut buf = screen();
    assert_eq!(fx.process(ms(2), &mut buf, area), None);
    assert_eq!(buf, Buffer::with_lines(["......", "..xy..", "......"]));
    // what the other buffer holds now is what is copied
    aux.store(Buffer::with_lines(["z"]));
    let mut buf = screen();
    assert_eq!(fx.process(ms(3), &mut buf, area), Some(ms(1)));
    assert_eq!(buf, Buffer::with_lines(["......", "......", "....z."]));
    let mut back = fx::translate_buf(Offset { x: -4, y: 0 }, aux, 2);
    let mut buf = screen();
    back.process(ms(1), &mut buf, area);
    assert_eq!(buf, screen());
}

#[test]
fn offscreen_buffer_leaves_the_screen_alone() {
    let target = ref_count(Buffer::with_lines(["abcd"]));
    let mut fx = fx::offscreen_buffer(fx::dissolve(2), target.share());
    assert_eq!(fx.name(), "offscreen_buffer");
    let mut buf = Buffer::with_lines(["1234", "5678"]);
    let area = *buf.area();
    assert_eq!(fx.process(ms(2), &mut buf, area), Some(ms(0)));
    assert_eq!(buf, Buffer::with_lines(["1234", "5678"]));
    assert_eq!(target.snapshot(), Buffer::with_lines(["    "]));
    assert!(fx.done());
}

#[test]
fn execute_paints_at_the_alpha_that_it_is_given() {
    let target = Color::Rgb(200, 100, 0);
    let fx = fade_to_fg(target, (4, Interpolation::Linear));
    let mut buf = Buffer::with_lines(["ab", "cd"]);
    let area = *buf.area();
    buf.set_style(area, ratatui::style::Style::default().fg(Color::Rgb(0, 0, 100)));
    fx.execute(ALPHA_ONE / 2, area, &mut buf);
    for cell in buf.content() {
        assert_eq!(cell.fg, Color::Rgb(100, 50, 50));
    }
    // the effect itself has not moved
    assert_eq!(fx.timer().unwrap().remaining(), ms(4));
}

#[test]
fn execute_of_an_effect_that_runs_others_paints_nothing() {
    let fx = tachyonfx::fx::sequence(&[fade_to_fg(Color::Red, 4u32)]);
    let mut buf = Buffer::with_lines(["ab", "cd"]);
    let area = *buf.area();
    fx.execute(ALPHA_ONE, area, &mut buf);
    assert_eq!(buf, Buffer::with_lines(["ab", "cd"]));
}

#[test]
fn cell_iter_lists_the_cells_that_the_filter_selects() {
    let buf = Buffer::with_lines(["a#", "cd"]);
    let area = *buf.area();
    let all = fade_to_fg(Color::Red, 4u32);
    assert_eq!(all.cell_iter(&buf, area).len(), 4);
    let text = fade_to_fg(Color::Red, 4u32).with_cell_selection(CellFilter::Text);
    let cells = text.cell_iter(&buf, area);
    assert_eq!(cells.len(), 3);
    assert_eq!(cells.position(0), ratatui::layout::Position::new(0, 0));
    assert_eq!(cells.position(1), ratatui::layout::Position::new(0, 1));
    assert_eq!(cells.position(2), ratatui::layout::Position::new(1, 1));
}

#[test]
fn execute_counts_an_alpha_past_one_as_one() {
    let target = Color::Rgb(200, 100, 0);
    let fx = fade_to_fg(target, (4, Interpolation::Linear));
    let mut at_one = Buffer::with_lines(["ab", "cd"]);
    let area = *at_one.area();
    at_one.set_style(area, ratatui::style::Style::default().fg(Color::Rgb(0, 0, 100)));
    let mut past_one = at_one.clone();
    fx.execute(ALPHA_ONE, area, &mut at_one);
    fx.execute(u32::MAX, area, &mut past_one);
    assert_eq!(at_one, past_one);
    for cell in past_one.content() {
        assert_eq!(cell.fg, target);
    }
}
