use ratatui::buffer::Buffer;
use ratatui::layout::{Margin, Position, Rect};
use ratatui::style::Color;
use tachyonfx::fx::dissolve::Dissolve;
use tachyonfx::fx::temporary::TemporaryEffect;
use tachyonfx::interpolation::ALPHA_ONE;
use tachyonfx::{
    fx, CellFilter, Duration, Effect, EffectRenderer, EffectTimer, Interpolation,
    IntoTemporaryEffect, RepeatMode, Shader, SimpleRng, Style,
};

fn ms(n: u32) -> Duration {
    Duration::from_millis(n)
}

fn screen() -> Buffer {
    Buffer::with_lines(["abcdefgh", "ijklmnop"])
}

fn step(effect: &mut Effect, n: u32) -> Option<u32> {
    let mut buf = screen();
    let area = *buf.area();
    effect.process(ms(n), &mut buf, area).map(|d| d.as_millis())
}

#[test]
fn test_cell_filter_eval() {
    let mut buf = Buffer::with_lines([". . . . ", ". . . . ", ". . . . ", ". . . . "]);

    let filter = CellFilter::eval_cell(|cell| cell.symbol() == ".");
    let mut fx = fx::effect_fn((), 1, |_, _, cells| {
        for (_, c) in cells {
            c.set_symbol("X");
        }
    })
    .with_cell_selection(filter);

    let area = buf.area().clone();
    buf.render_effect(&mut fx, area, Duration::from_millis(16));

    assert_eq!(
        buf,
        Buffer::with_lines(["X X X X ", "X X X X ", "X X X X ", "X X X X "])
    );
}

#[test]
fn effect_fn_keeps_its_state_and_sees_the_frame() {
    let mut fx = fx::effect_fn(0u32, (100, Interpolation::Linear), |frames, ctx, cells| {
        *frames += 1;
        assert_eq!(ctx.last_tick, Duration::from_millis(25));
        assert_eq!(ctx.alpha(), ALPHA_ONE / 4 * *frames);
        assert_eq!(cells.len(), 16);
        assert_eq!(cells[0].0, Position::new(0, 0));
        assert_eq!(cells[9].0, Position::new(1, 1));
        cells[(*frames - 1) as usize].1.set_fg(Color::Red);
    });
    assert_eq!(fx.name(), "shader_fn");
    let mut buf = screen();
    let area = *buf.area();
    assert_eq!(fx.process(ms(25), &mut buf, area), None);
    assert_eq!(fx.process(ms(25), &mut buf, area), None);
    assert_eq!(buf[(0, 0)].fg, Color::Red);
    assert_eq!(buf[(1, 0)].fg, Color::Red);
    assert_eq!(buf[(2, 0)].fg, Color::Reset);
    assert!(fx.running());
}

#[test]
fn effect_fn_buf_cannot_resize_the_buffer() {
    let mut fx = fx::effect_fn_buf((), 10, |_, _, buf: &mut Buffer| {
        buf[(1, 1)].set_symbol("!");
        buf.resize(Rect::new(0, 0, 1, 1));
        buf[(0, 0)].set_symbol("?");
    });
    assert_eq!(fx.name(), "shader_fn_buf");
    let mut buf = screen();
    let area = *buf.area();
    assert_eq!(fx.process(ms(10), &mut buf, area), Some(ms(0)));
    assert_eq!(buf, Buffer::with_lines(["?bcdefgh", "ijklmnop"]));
    assert!(fx.done());
}

#[test]
fn sleep_reports_overflow_once() {
    let mut fx = fx::sleep(100);
    assert_eq!(fx.name(), "sleep");
    assert_eq!(step(&mut fx, 40), None);
    assert!(fx.running());
    assert_eq!(step(&mut fx, 70), Some(10));
    assert!(fx.done());
    assert_eq!(step(&mut fx, 70), None);
    assert!(fx.done());
}

#[test]
fn consume_tick_uses_up_one_step() {
    let mut fx = fx::consume_tick();
    assert_eq!(fx.name(), "consume_tick");
    assert!(fx.running());
    assert_eq!(step(&mut fx, 500), Some(0));
    assert!(fx.done());
    assert_eq!(step(&mut fx, 500), None);
    fx.reset();
    assert!(fx.running());
}

#[test]
fn two_ticks_in_sequence_take_two_steps() {
    let mut fx = fx::sequence(&[fx::consume_tick(), fx::consume_tick()]);
    assert_eq!(step(&mut fx, 16), None);
    assert!(fx.running());
    assert_eq!(step(&mut fx, 16), Some(0));
    assert!(fx.done());
}

#[test]
fn sequence_completes_after_the_sum_of_its_durations() {
    // in one step
    let mut fx = fx::sequence(&[fx::sleep(30), fx::sleep(50)]);
    assert_eq!(fx.name(), "sequential");
    assert_eq!(step(&mut fx, 95), Some(15));
    assert!(fx.done());

    // in several steps, the first child ending within a step
    let mut fx = fx::sequence(&[fx::sleep(30), fx::sleep(50)]);
    assert_eq!(step(&mut fx, 20), None);
    assert_eq!(step(&mut fx, 20), None);
    assert_eq!(step(&mut fx, 20), None);
    assert_eq!(step(&mut fx, 20), Some(0));
    assert!(fx.done());
    assert_eq!(step(&mut fx, 20), None);

    // the first child ending exactly on a step
    let mut fx = fx::sequence(&[fx::sleep(30), fx::sleep(50)]);
    assert_eq!(step(&mut fx, 30), None);
    assert!(fx.running());
    assert_eq!(step(&mut fx, 49), None);
    assert_eq!(step(&mut fx, 4), Some(3));
}

#[test]
fn sequence_skips_effects_without_duration() {
    let mut fx = fx::sequence(&[fx::sleep(0), fx::sleep(10), fx::sleep(0)]);
    assert!(fx.running());
    assert_eq!(step(&mut fx, 10), Some(0));
    assert!(fx.done());
    assert!(fx::sequence(&[]).done());
    assert!(fx::sequence(&[fx::sleep(0)]).done());
}

#[test]
fn sequence_runs_the_effect_at_work_only() {
    let mut buf = screen();
    let area = *buf.area();
    let mark = |symbol: &'static str, time: u32| {
        fx::effect_fn((), time, move |_, _, cells| {
            cells[0].1.set_symbol(symbol);
        })
    };
    let mut fx = fx::sequence(&[mark("1", 10), mark("2", 10)]);
    assert_eq!(fx.process(ms(5), &mut buf, area), None);
    assert_eq!(buf[(0, 0)].symbol(), "1");
    buf[(0, 0)].set_symbol("a");
    assert_eq!(fx.process(ms(10), &mut buf, area), None);
    // the step that ends the first effect goes on into the second
    assert_eq!(buf[(0, 0)].symbol(), "2");
    buf[(0, 0)].set_symbol("a");
    assert_eq!(fx.process(ms(10), &mut buf, area), Some(ms(5)));
    assert_eq!(buf[(0, 0)].symbol(), "2");
    buf[(0, 0)].set_symbol("a");
    assert_eq!(fx.process(ms(10), &mut buf, area), None);
    assert_eq!(buf[(0, 0)].symbol(), "a");
}

#[test]
fn parallel_is_done_when_the_longer_effect_is() {
    let mut fx = fx::parallel(&[fx::sleep(30), fx::sleep(50)]);
    assert_eq!(fx.name(), "parallel");
    assert_eq!(step(&mut fx, 40), None);
    assert!(fx.running());
    assert_eq!(step(&mut fx, 9), None);
    assert!(fx.running());
    assert_eq!(step(&mut fx, 4), Some(3));
    assert!(fx.done());
    assert_eq!(step(&mut fx, 4), None);

    let mut fx = fx::parallel(&[fx::sleep(30), fx::sleep(50)]);
    assert_eq!(step(&mut fx, 80), Some(30));
    assert!(fx::parallel(&[]).done());
}

#[test]
fn parallel_leaves_a_finished_effect_alone() {
    let mut buf = screen();
    let area = *buf.area();
    let short = fx::effect_fn((), 30, |_, _, cells| {
        cells[0].1.set_symbol("S");
    });
    let long = fx::effect_fn((), 50, |_, _, cells| {
        cells[1].1.set_symbol("L");
    });
    let mut fx = fx::parallel(&[short, long]);
    assert_eq!(fx.process(ms(30), &mut buf, area), None);
    assert_eq!(buf, Buffer::with_lines(["SLcdefgh", "ijklmnop"]));
    let mut buf = screen();
    assert_eq!(fx.process(ms(10), &mut buf, area), None);
    assert_eq!(buf, Buffer::with_lines(["aLcdefgh", "ijklmnop"]));
    let mut buf = screen();
    assert_eq!(fx.process(ms(10), &mut buf, area), Some(ms(0)));
    assert_eq!(buf, Buffer::with_lines(["aLcdefgh", "ijklmnop"]));
    let mut buf = screen();
    assert_eq!(fx.process(ms(10), &mut buf, area), None);
    assert_eq!(buf, screen());
}

#[test]
fn ping_pong_takes_twice_the_time() {
    let mut fx = fx::ping_pong(fx::sleep(40));
    assert_eq!(fx.name(), "ping_pong");
    assert_eq!(step(&mut fx, 30), None);
    assert_eq!(step(&mut fx, 30), None);
    assert!(fx.running());
    assert_eq!(step(&mut fx, 19), None);
    assert!(fx.running());
    assert_eq!(step(&mut fx, 5), Some(4));
    assert!(fx.done());

    let mut fx = fx::ping_pong(fx::sleep(40));
    assert_eq!(step(&mut fx, 80), Some(0));
    let mut fx = fx::ping_pong(fx::sleep(40));
    assert_eq!(step(&mut fx, 40), None);
    assert!(fx.running());
    assert_eq!(step(&mut fx, 40), Some(0));
    assert!(fx::ping_pong(fx::sleep(0)).done());
}

#[test]
fn ping_pong_turns_round_at_the_same_alpha() {
    let seen = std::rc::Rc::new(std::cell::RefCell::new(Vec::new()));
    let log = seen.clone();
    let inner = fx::effect_fn((), (40, Interpolation::Linear), move |_, ctx, _| {
        log.borrow_mut().push((ctx.alpha(), ctx.timer.is_reversed()));
    });
    let mut fx = fx::ping_pong(inner);
    for _ in 0..8 {
        step(&mut fx, 10);
    }
    let quarter = ALPHA_ONE / 4;
    assert_eq!(
        *seen.borrow(),
        vec![
            (quarter, false),
            (2 * quarter, false),
            (3 * quarter, false),
            (ALPHA_ONE, false),
            (3 * quarter, true),
            (2 * quarter, true),
            (quarter, true),
            (0, true),
        ]
    );
    assert!(fx.done());
}

#[test]
fn repeat_times_runs_that_many_times() {
    let mut fx = fx::repeat(fx::sleep(10), RepeatMode::Times(3));
    assert_eq!(fx.name(), "repeat");
    assert_eq!(step(&mut fx, 25), None);
    assert!(fx.running());
    assert_eq!(step(&mut fx, 4), None);
    assert_eq!(step(&mut fx, 4), Some(3));
    assert!(fx.done());
    assert_eq!(step(&mut fx, 4), None);

    let mut fx = fx::repeat(fx::sleep(10), RepeatMode::Times(3));
    assert_eq!(step(&mut fx, 30), Some(0));
    assert!(fx::repeat(fx::sleep(10), RepeatMode::Times(0)).done());
    assert!(fx::repeat(fx::sleep(0), RepeatMode::Times(5)).done());
    let mut fx = fx::repeat(fx::sleep(10), RepeatMode::Times(1));
    assert_eq!(step(&mut fx, 10), Some(0));
    fx.reset();
    assert!(fx.running());
    assert_eq!(step(&mut fx, 11), Some(1));
}

#[test]
fn repeat_duration_cuts_the_last_run_short() {
    let runs = std::rc::Rc::new(std::cell::RefCell::new(Vec::new()));
    let log = runs.clone();
    let inner = fx::effect_fn((), (10, Interpolation::Linear), move |_, ctx, _| {
        log.borrow_mut().push(ctx.alpha());
    });
    let mut fx = fx::repeat(inner, RepeatMode::Duration(ms(25)));
    assert_eq!(step(&mut fx, 5), None);
    assert_eq!(step(&mut fx, 10), None);
    assert_eq!(step(&mut fx, 5), None);
    assert!(fx.running());
    assert_eq!(step(&mut fx, 10), Some(5));
    assert!(fx.done());
    let half = ALPHA_ONE / 2;
    assert_eq!(*runs.borrow(), vec![half, ALPHA_ONE, half, ALPHA_ONE, half]);
}

#[test]
fn repeating_never_ends() {
    let mut fx = fx::repeating(fx::sleep(10));
    for _ in 0..100 {
        assert_eq!(step(&mut fx, 7), None);
        assert!(fx.running());
    }
    let mut fx = fx::repeating(fx::sleep(0));
    assert_eq!(step(&mut fx, 7), None);
    assert!(fx.running());
    let mut fx = fx::repeating(fx::consume_tick());
    assert_eq!(step(&mut fx, 7), None);
    assert!(fx.running());
}

#[test]
fn delay_is_a_pause_and_the_effect() {
    let mut fx = fx::delay(20, fx::sleep(10));
    assert_eq!(fx.name(), "sequential");
    assert_eq!(step(&mut fx, 25), None);
    assert_eq!(step(&mut fx, 25), Some(20));
}

#[test]
fn prolong_start_holds_the_effect_at_its_first_alpha() {
    let seen = std::rc::Rc::new(std::cell::RefCell::new(Vec::new()));
    let log = seen.clone();
    let inner = fx::effect_fn((), (20, Interpolation::Linear), move |_, ctx, _| {
        log.borrow_mut().push(ctx.alpha());
    });
    let mut fx = fx::prolong_start(30, inner);
    assert_eq!(fx.name(), "prolong");
    assert_eq!(step(&mut fx, 20), None);
    assert_eq!(step(&mut fx, 20), None);
    assert_eq!(step(&mut fx, 20), Some(10));
    assert!(fx.done());
    assert_eq!(*seen.borrow(), vec![0, ALPHA_ONE / 2, ALPHA_ONE]);
}

#[test]
fn prolong_end_holds_the_effect_at_its_last_alpha() {
    let seen = std::rc::Rc::new(std::cell::RefCell::new(Vec::new()));
    let log = seen.clone();
    let inner = fx::effect_fn((), (20, Interpolation::Linear), move |_, ctx, _| {
        log.borrow_mut().push(ctx.alpha());
    });
    let mut fx = fx::prolong_end(30, inner);
    assert_eq!(step(&mut fx, 10), None);
    assert_eq!(step(&mut fx, 20), None);
    assert_eq!(step(&mut fx, 10), None);
    assert!(fx.running());
    assert_eq!(step(&mut fx, 15), Some(5));
    assert!(fx.done());
    assert_eq!(*seen.borrow(), vec![ALPHA_ONE / 2, ALPHA_ONE, ALPHA_ONE, ALPHA_ONE]);
}

#[test]
fn prolong_forwards_area_and_filter() {
    let area = Rect::new(1, 2, 3, 4);
    let fx = fx::prolong_start(30, fx::dissolve(10))
        .with_area(area)
        .with_cell_selection(CellFilter::Text);
    assert_eq!(fx.area(), Some(area));
    assert_eq!(fx.cell_selection().map(|f| f.to_string()), Some("text".to_string()));
    let fx = fx::prolong_end(30, fx::sleep(10)).with_area(area);
    assert_eq!(fx.area(), None);
    assert!(fx.cell_selection().is_none());
}

#[test]
fn never_complete_stays_at_the_last_alpha() {
    let seen = std::rc::Rc::new(std::cell::RefCell::new(Vec::new()));
    let log = seen.clone();
    let inner = fx::effect_fn((), (20, Interpolation::Linear), move |_, ctx, _| {
        log.borrow_mut().push(ctx.alpha());
    });
    let mut fx = fx::never_complete(inner);
    assert_eq!(fx.name(), "never_complete");
    for _ in 0..4 {
        assert_eq!(step(&mut fx, 15), None);
        assert!(fx.running());
    }
    assert_eq!(*seen.borrow(), vec![ALPHA_ONE / 4 * 3, ALPHA_ONE, ALPHA_ONE, ALPHA_ONE]);
}

#[test]
fn with_duration_ends_with_whichever_is_first() {
    let mut fx = fx::with_duration(ms(30), fx::sleep(50));
    assert_eq!(fx.name(), "with_duration");
    assert_eq!(step(&mut fx, 20), None);
    assert_eq!(step(&mut fx, 20), Some(10));
    assert!(fx.done());
    assert_eq!(step(&mut fx, 20), None);

    // the effect ends first: the shader is done, and hands nothing back, for its timer
    // has not run out
    let mut fx = fx::sleep(10).with_duration(ms(30));
    assert_eq!(step(&mut fx, 20), None);
    assert!(fx.done());

    let mut fx = fx::with_duration(ms(1000), fx::sleep(50));
    assert!(!fx.done());
    assert_eq!(step(&mut fx, 80), None);
    assert!(fx.done());

    let mut fx = Effect::new(Shader::Temporary(TemporaryEffect::new(fx::sleep(10), ms(10))));
    assert_eq!(step(&mut fx, 15), Some(5));
}

#[test]
fn timed_never_complete_ends_with_its_timer() {
    let mut fx = fx::timed_never_complete(ms(30), fx::sleep(10));
    assert_eq!(step(&mut fx, 20), None);
    assert!(fx.running());
    assert_eq!(step(&mut fx, 20), Some(10));
    assert!(fx.done());
}

#[test]
fn translate_moves_its_area_with_alpha() {
    let base = Rect::new(10, 10, 4, 2);
    let mut fx = fx::translate(None, (8, -4), (100, Interpolation::Linear));
    assert_eq!(fx.name(), "translate");
    assert_eq!(fx.area(), None);
    let mut buf = screen();
    assert_eq!(fx.process(ms(25), &mut buf, base), None);
    assert_eq!(fx.area(), Some(Rect::new(12, 9, 4, 2)));
    assert_eq!(fx.process(ms(25), &mut buf, base), None);
    assert_eq!(fx.area(), Some(Rect::new(14, 8, 4, 2)));
    assert_eq!(fx.process(ms(60), &mut buf, base), Some(ms(10)));
    assert_eq!(fx.area(), Some(Rect::new(18, 6, 4, 2)));
    assert!(fx.done());
}

#[test]
fn translate_keeps_the_area_in_the_coordinate_space() {
    let mut fx = fx::translate(None, (-100, 100), 10).with_area(Rect::new(3, 65530, 4, 2));
    let mut buf = screen();
    let area = *buf.area();
    assert_eq!(fx.process(ms(10), &mut buf, area), Some(ms(0)));
    assert_eq!(fx.area(), Some(Rect::new(0, 65533, 4, 2)));
}

#[test]
fn translate_moves_the_area_of_its_effect() {
    let areas = std::rc::Rc::new(std::cell::RefCell::new(Vec::new()));
    let log = areas.clone();
    let inner = fx::effect_fn((), 20, move |_, ctx, _| {
        log.borrow_mut().push(ctx.area);
    });
    let mut fx = fx::translate(Some(inner), (4, 2), (40, Interpolation::Linear));
    let mut buf = screen();
    let area = Rect::new(0, 0, 3, 1);
    assert_eq!(fx.process(ms(20), &mut buf, area), None);
    assert!(fx.running());
    assert_eq!(fx.process(ms(30), &mut buf, area), Some(ms(10)));
    assert!(fx.done());
    assert_eq!(*areas.borrow(), vec![Rect::new(2, 1, 3, 1)]);
}

#[test]
fn reversing_a_sequence_turns_its_order_round() {
    let order = std::rc::Rc::new(std::cell::RefCell::new(Vec::new()));
    let mark = |name: &'static str| {
        let log = order.clone();
        fx::effect_fn((), (10, Interpolation::Linear), move |_, ctx, _| {
            log.borrow_mut().push((name, ctx.alpha()));
        })
    };
    let mut fx = fx::sequence(&[mark("a"), mark("b")]).reversed();
    step(&mut fx, 5);
    step(&mut fx, 10);
    step(&mut fx, 5);
    let half = ALPHA_ONE / 2;
    assert_eq!(*order.borrow(), vec![("b", half), ("b", 0), ("a", half), ("a", 0)]);
    assert!(fx.done());
}

#[test]
fn dissolve_names_follow_the_direction() {
    assert_eq!(fx::dissolve(1000).name(), "dissolve");
    assert_eq!(fx::coalesce(1000).name(), "coalesce");
    assert_eq!(fx::dissolve(1000).reversed().name(), "coalesce");
    assert_eq!(fx::coalesce(1000).reversed().name(), "dissolve");
    assert_eq!(fx::dissolve_to(Style::new(), 1000).name(), "dissolve");
    assert_eq!(fx::coalesce_from(Style::new(), 1000).name(), "coalesce");
}

fn blanks(buf: &Buffer) -> usize {
    buf.content().iter().filter(|c| c.symbol() == " ").count()
}

#[test]
fn dissolve_blanks_more_and_more_cells() {
    let mut fx = fx::dissolve((4, Interpolation::Linear));
    let mut last = 0;
    for tick in 1..=4 {
        let mut buf = Buffer::with_lines(["xxxxxxxx"]);
        let area = *buf.area();
        let overflow = fx.process(ms(1), &mut buf, area);
        let now = blanks(&buf);
        assert!(now >= last);
        last = now;
        assert_eq!(overflow.is_some(), tick == 4);
    }
    assert_eq!(last, 8);
    assert!(fx.done());
}

#[test]
fn dissolve_blanks_the_same_cells_on_every_frame() {
    let mut fx = fx::dissolve((10, Interpolation::Linear));
    let mut first = screen();
    let area = *first.area();
    fx.process(ms(5), &mut first, area);
    let mut second = screen();
    fx.process(ms(0), &mut second, area);
    assert_eq!(first, second);
    let n = blanks(&first);
    assert!(0 < n && n < 16, "{n}");
}

#[test]
fn coalesce_ends_with_the_cells_as_they_were() {
    let mut dissolve = fx::dissolve(10);
    let mut coalesce = fx::coalesce(10);
    let mut buf = screen();
    let area = *buf.area();
    // as time passes the one blanks what the other shows
    let mut a = screen();
    let mut b = screen();
    dissolve.process(ms(4), &mut a, area);
    coalesce.process(ms(6), &mut b, area);
    assert_eq!(a, b);
    assert_eq!(dissolve.process(ms(6), &mut buf, area), Some(ms(0)));
    assert_eq!(blanks(&buf), 16);
    let mut buf = screen();
    assert_eq!(coalesce.process(ms(4), &mut buf, area), Some(ms(0)));
    assert_eq!(buf, screen());
}

#[test]
fn dissolve_touches_the_selected_cells_only() {
    let mut fx = fx::dissolve_to(Style::new().bg(Color::Blue), 1)
        .with_cell_selection(CellFilter::Inner(Margin::new(1, 0)))
        .with_area(Rect::new(2, 0, 4, 1));
    let mut buf = screen();
    let area = *buf.area();
    fx.process(ms(1), &mut buf, area);
    let mut expected = Buffer::with_lines(["abc  fgh", "ijklmnop"]);
    expected[(3, 0)].set_bg(Color::Blue);
    expected[(4, 0)].set_bg(Color::Blue);
    assert_eq!(buf, expected);
}

#[test]
fn dissolve_with_its_own_generator_differs() {
    let timer = EffectTimer::from_ms(10, Interpolation::Linear);
    let mut one = Effect::new(Shader::Dissolve(Dissolve::new(timer)));
    let mut two = Effect::new(Shader::Dissolve(Dissolve::new(timer).with_rng(SimpleRng::new(1))));
    let mut a = Buffer::with_lines(["x".repeat(200)]);
    let mut b = a.clone();
    let area = *a.area();
    one.process(ms(5), &mut a, area);
    two.process(ms(5), &mut b, area);
    assert_ne!(a, b);
    let (n, m) = (blanks(&a), blanks(&b));
    assert!(60 < n && n < 140, "{n}");
    assert!(60 < m && m < 140, "{m}");
}

#[test]
fn a_copy_of_an_effect_runs_by_itself() {
    let mut fx = fx::sequence(&[fx::sleep(10), fx::ping_pong(fx::dissolve(5))]);
    step(&mut fx, 12);
    let mut copy = fx.clone();
    assert_eq!(step(&mut fx, 8), Some(0));
    assert!(fx.done());
    assert!(copy.running());
    assert_eq!(step(&mut copy, 9), Some(1));
}

#[test]
fn areas_and_filters_reach_every_effect_of_a_list() {
    let area = Rect::new(1, 0, 2, 1);
    let mut fx = fx::parallel(&[fx::dissolve(1), fx::sequence(&[fx::dissolve(1)])])
        .with_area(area)
        .with_cell_selection(CellFilter::eval_cell(|c| c.symbol() != "c"));
    assert_eq!(fx.area(), None);
    let mut buf = screen();
    let whole = *buf.area();
    fx.process(ms(1), &mut buf, whole);
    assert_eq!(buf, Buffer::with_lines(["a cdefgh", "ijklmnop"]));
}

#[test]
fn never_complete_starts_again_after_a_reset() {
    let target = Color::Rgb(200, 100, 0);
    let mut effect = fx::never_complete(fx::fade_to_fg(target, (4, Interpolation::Linear)));
    let mut buf = screen();
    let area = *buf.area();
    buf.set_style(area, ratatui::style::Style::default().fg(Color::Rgb(0, 0, 100)));
    let start = buf.clone();
    effect.process(ms(4), &mut buf, area);
    for cell in buf.content() {
        assert_eq!(cell.fg, target);
    }
    effect.reset();
    let mut again = start.clone();
    effect.process(ms(1), &mut again, area);
    for cell in again.content() {
        assert_eq!(cell.fg, Color::Rgb(50, 25, 75));
    }
    assert!(effect.running());
}

#[test]
fn repeating_goes_on_into_the_next_run_with_what_is_left_of_a_step() {
    let target = Color::Rgb(200, 100, 0);
    let mut effect = fx::repeating(fx::fade_to_fg(target, (4, Interpolation::Linear)));
    let mut buf = screen();
    let area = *buf.area();
    buf.set_style(area, ratatui::style::Style::default().fg(Color::Rgb(0, 0, 100)));
    let start = buf.clone();
    // three of four milliseconds, then two more: the second step ends the first run and
    // brings the second run to its first millisecond
    effect.process(ms(3), &mut buf, area);
    let mut next = start.clone();
    assert_eq!(effect.process(ms(2), &mut next, area), None);
    // that step has painted the end of the first run too; a frame without time shows
    // where the second run is
    let mut frame = start.clone();
    effect.process(ms(0), &mut frame, area);
    for cell in frame.content() {
        assert_eq!(cell.fg, Color::Rgb(50, 25, 75));
    }
    // a step that ends a run to the millisecond leaves the effect at the end of that run
    let mut last = start.clone();
    effect.process(ms(3), &mut last, area);
    for cell in last.content() {
        assert_eq!(cell.fg, target);
    }
    let mut rest = start.clone();
    effect.process(ms(0), &mut rest, area);
    for cell in rest.content() {
        assert_eq!(cell.fg, Color::Rgb(0, 0, 100));
    }
}
