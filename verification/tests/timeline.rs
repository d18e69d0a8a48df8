use tachyonfx::{fx, Duration, Effect, EffectSpan, EffectTimer, Interpolation, RepeatMode};

fn total(effect: &Effect) -> Option<u32> {
    effect.total_duration().map(|d| d.as_millis())
}

fn shape(span: &EffectSpan) -> (&'static str, u32, Option<u32>, usize) {
    (
        span.label,
        span.start.as_millis(),
        span.duration.map(|d| d.as_millis()),
        span.children.len(),
    )
}

#[test]
fn total_duration_of_a_pause_is_its_timer() {
    assert_eq!(total(&fx::sleep(250u32)), Some(250));
    assert_eq!(total(&fx::consume_tick()), Some(0));
    assert_eq!(total(&fx::term256_colors()), None);
}

#[test]
fn total_duration_adds_up_in_a_sequence() {
    let effect = fx::sequence(&[fx::sleep(100u32), fx::dissolve(40u32), fx::sleep(7u32)]);
    assert_eq!(total(&effect), Some(147));
    assert_eq!(total(&fx::sequence(&[])), Some(0));
}

#[test]
fn total_duration_is_the_longest_side_by_side() {
    let effect = fx::parallel(&[fx::sleep(100u32), fx::dissolve(400u32), fx::sleep(7u32)]);
    assert_eq!(total(&effect), Some(400));
    assert_eq!(total(&fx::parallel(&[])), Some(0));
}

#[test]
fn total_duration_is_missing_where_a_part_has_no_end() {
    let endless = fx::never_complete(fx::sleep(10u32));
    assert_eq!(total(&endless), None);
    assert_eq!(total(&fx::sequence(&[fx::sleep(5u32), endless.clone()])), None);
    assert_eq!(total(&fx::parallel(&[fx::sleep(5u32), endless.clone()])), None);
    assert_eq!(total(&fx::repeating(fx::sleep(5u32))), None);
    assert_eq!(total(&fx::with_duration(Duration::from_millis(30), endless)), Some(30));
}

#[test]
fn total_duration_of_the_wrappers() {
    assert_eq!(total(&fx::ping_pong(fx::sleep(30u32))), Some(60));
    assert_eq!(total(&fx::prolong_start(20u32, fx::sleep(30u32))), Some(50));
    assert_eq!(total(&fx::prolong_end(20u32, fx::sleep(30u32))), Some(50));
    assert_eq!(total(&fx::delay(20u32, fx::sleep(30u32))), Some(50));
    assert_eq!(total(&fx::repeat(fx::sleep(30u32), RepeatMode::Times(3))), Some(90));
    assert_eq!(
        total(&fx::repeat(fx::sleep(30u32), RepeatMode::Duration(Duration::from_millis(75)))),
        Some(75)
    );
    assert_eq!(total(&fx::with_duration(Duration::from_millis(10), fx::sleep(30u32))), Some(10));
    assert_eq!(total(&fx::with_duration(Duration::from_millis(50), fx::sleep(30u32))), Some(30));
    assert_eq!(total(&fx::translate(Some(fx::sleep(30u32)), (1, 1), 20u32)), Some(30));
    assert_eq!(total(&fx::translate(None, (1, 1), 20u32)), Some(20));
}

#[test]
fn total_duration_stops_at_the_longest_duration() {
    let long = fx::sequence(&[fx::sleep(u32::MAX), fx::sleep(5u32)]);
    assert_eq!(total(&long), Some(u32::MAX));
    assert_eq!(total(&fx::repeat(fx::sleep(u32::MAX), RepeatMode::Times(2))), Some(u32::MAX));
}

#[test]
fn total_duration_does_not_change_while_the_effect_runs() {
    let mut effect = fx::sequence(&[fx::sleep(100u32), fx::sleep(50u32)]);
    let mut buf = ratatui::buffer::Buffer::empty(ratatui::layout::Rect::new(0, 0, 2, 2));
    let area = *buf.area();
    effect.process(Duration::from_millis(120), &mut buf, area);
    assert_eq!(total(&effect), Some(150));
}

#[test]
fn timer_of_a_painting_effect_is_its_own() {
    let mut effect = fx::dissolve((200u32, Interpolation::QuadOut));
    let mut buf = ratatui::buffer::Buffer::empty(ratatui::layout::Rect::new(0, 0, 2, 2));
    let area = *buf.area();
    effect.process(Duration::from_millis(50), &mut buf, area);
    let timer = effect.timer().unwrap();
    assert_eq!(timer.duration().as_millis(), 200);
    assert_eq!(timer.remaining().as_millis(), 150);
    assert!(matches!(timer.interpolation(), Interpolation::QuadOut));
}

#[test]
fn timer_of_a_composite_is_made_for_its_length() {
    let mut effect = fx::sequence(&[fx::sleep(100u32), fx::sleep(50u32)]);
    let mut buf = ratatui::buffer::Buffer::empty(ratatui::layout::Rect::new(0, 0, 2, 2));
    let area = *buf.area();
    effect.process(Duration::from_millis(120), &mut buf, area);
    let timer = effect.timer().unwrap();
    assert_eq!(timer.duration().as_millis(), 150);
    assert_eq!(timer.remaining().as_millis(), 150);
    assert!(matches!(timer.interpolation(), Interpolation::Linear));
    assert!(!timer.is_reversed());
    assert!(fx::never_complete(fx::sleep(1u32)).timer().is_none());
}

#[test]
fn span_of_a_single_effect_has_no_children() {
    let span = fx::dissolve(40u32).as_effect_span(Duration::from_millis(15));
    assert_eq!(shape(&span), ("dissolve", 15, Some(40), 0));
}

#[test]
fn span_of_a_sequence_starts_each_effect_after_the_one_before() {
    let effect = fx::sequence(&[fx::sleep(100u32), fx::dissolve(40u32), fx::coalesce(7u32)]);
    let span = effect.as_effect_span(Duration::from_millis(1000));
    assert_eq!(shape(&span), ("sequential", 1000, Some(147), 3));
    assert_eq!(shape(&span.children[0]), ("sleep", 1000, Some(100), 0));
    assert_eq!(shape(&span.children[1]), ("dissolve", 1100, Some(40), 0));
    assert_eq!(shape(&span.children[2]), ("coalesce", 1140, Some(7), 0));
}

#[test]
fn span_of_parallel_effects_starts_them_together() {
    let effect = fx::parallel(&[fx::sleep(100u32), fx::dissolve(40u32)]);
    let span = effect.as_effect_span(Duration::from_millis(10));
    assert_eq!(shape(&span), ("parallel", 10, Some(100), 2));
    assert_eq!(shape(&span.children[0]), ("sleep", 10, Some(100), 0));
    assert_eq!(shape(&span.children[1]), ("dissolve", 10, Some(40), 0));
}

#[test]
fn span_of_a_delayed_effect_starts_it_after_the_delay() {
    let effect = fx::prolong_start(20u32, fx::sequence(&[fx::sleep(5u32), fx::sleep(6u32)]));
    let span = effect.as_effect_span(Duration::from_millis(100));
    assert_eq!(shape(&span), ("prolong", 100, Some(31), 1));
    let inner = &span.children[0];
    assert_eq!(shape(inner), ("sequential", 120, Some(11), 2));
    assert_eq!(shape(&inner.children[0]), ("sleep", 120, Some(5), 0));
    assert_eq!(shape(&inner.children[1]), ("sleep", 125, Some(6), 0));

    let held = fx::prolong_end(20u32, fx::sleep(5u32)).as_effect_span(Duration::from_millis(100));
    assert_eq!(shape(&held), ("prolong", 100, Some(25), 1));
    assert_eq!(shape(&held.children[0]), ("sleep", 100, Some(5), 0));
}

#[test]
fn span_after_an_endless_effect_starts_at_the_end_of_time() {
    let effect = fx::sequence(&[fx::never_complete(fx::sleep(5u32)), fx::sleep(6u32)]);
    let span = effect.as_effect_span(Duration::from_millis(100));
    assert_eq!(shape(&span), ("sequential", 100, None, 2));
    assert_eq!(shape(&span.children[0]), ("never_complete", 100, None, 1));
    assert_eq!(shape(&span.children[1]), ("sleep", u32::MAX, Some(6), 0));
}

#[test]
fn timer_mut_hands_out_the_timer_that_the_effect_keeps() {
    let mut effect = fx::sleep(100u32);
    let overflow = effect.timer_mut().unwrap().process(Duration::from_millis(40));
    assert_eq!(overflow, None);
    assert_eq!(effect.timer().unwrap().remaining().as_millis(), 60);
    assert!(effect.running());
    effect.timer_mut().unwrap().process(Duration::from_millis(60));
    assert!(effect.done());

    let mut limited = fx::with_duration(Duration::from_millis(30), fx::sleep(100u32));
    *limited.timer_mut().unwrap() = EffectTimer::from_ms(5, Interpolation::Linear);
    assert_eq!(total(&limited), Some(5));
}

#[test]
fn timer_mut_is_missing_where_the_effect_keeps_no_timer() {
    assert!(fx::sequence(&[fx::sleep(1u32)]).timer_mut().is_none());
    assert!(fx::parallel(&[fx::sleep(1u32)]).timer_mut().is_none());
    assert!(fx::consume_tick().timer_mut().is_none());
    assert!(fx::never_complete(fx::sleep(1u32)).timer_mut().is_none());
    assert!(fx::dissolve(10u32).timer_mut().is_some());
}
