use tachyonfx::interpolation::ALPHA_ONE;
use tachyonfx::{Duration, EffectTimer, Interpolation, SimpleRng};

fn ms(n: u32) -> Duration {
    Duration::from_millis(n)
}

#[test]
fn linear_timer_reaches_half_at_half_time() {
    let mut timer = EffectTimer::from_ms(1000, Interpolation::Linear);
    assert_eq!(timer.alpha(), 0);
    assert_eq!(timer.process(ms(500)), None);
    assert_eq!(timer.alpha(), ALPHA_ONE / 2);
    assert_eq!(timer.remaining(), ms(500));
    assert!(timer.started());
    assert!(!timer.done());
}

#[test]
fn linear_alpha_is_the_elapsed_share_rounded_down() {
    let mut timer = EffectTimer::from_ms(3, Interpolation::Linear);
    timer.process(ms(1));
    assert_eq!(timer.alpha(), 21845);
    timer.process(ms(1));
    assert_eq!(timer.alpha(), 43690);
    let mut timer = EffectTimer::from_ms(u32::MAX, Interpolation::Linear);
    timer.process(ms(u32::MAX - 1));
    assert_eq!(timer.alpha(), ALPHA_ONE - 1);
}

#[test]
fn overflow_is_reported_once_on_the_crossing_step() {
    let mut timer = EffectTimer::from_ms(100, Interpolation::Linear);
    assert_eq!(timer.process(ms(60)), None);
    assert_eq!(timer.process(ms(60)), Some(ms(20)));
    assert!(timer.done());
    assert_eq!(timer.alpha(), ALPHA_ONE);
    assert_eq!(timer.process(ms(60)), None);
    assert_eq!(timer.remaining(), ms(0));

    let mut timer = EffectTimer::from_ms(100, Interpolation::Linear);
    assert_eq!(timer.process(ms(100)), Some(ms(0)));
    let mut timer = EffectTimer::from_ms(100, Interpolation::Linear);
    assert_eq!(timer.process(ms(u32::MAX)), Some(ms(u32::MAX - 100)));
}

#[test]
fn timer_without_duration_is_done_from_the_start() {
    let mut timer = EffectTimer::from_ms(0, Interpolation::QuadInOut);
    assert!(timer.done());
    assert_eq!(timer.alpha(), ALPHA_ONE);
    assert_eq!(timer.reversed().alpha(), 0);
    assert_eq!(timer.process(ms(10)), None);
    assert_eq!(EffectTimer::default(), EffectTimer::from_ms(0, Interpolation::Linear));
}

#[test]
fn reversed_timer_shows_the_complement() {
    let mut timer = EffectTimer::from_ms(8, Interpolation::CubicIn).reversed();
    assert!(timer.is_reversed());
    assert_eq!(timer.alpha(), ALPHA_ONE);
    timer.process(ms(4));
    assert_eq!(timer.alpha(), ALPHA_ONE - ALPHA_ONE / 8);
    assert_eq!(timer.process(ms(4)), Some(ms(0)));
    assert_eq!(timer.alpha(), 0);
}

#[test]
fn reversing_twice_changes_nothing() {
    for elapsed in [0, 1, 37, 99, 100, 250] {
        let mut timer = EffectTimer::from_ms(100, Interpolation::QuartOut);
        let mut twice = timer.reversed().reversed();
        timer.process(ms(elapsed));
        twice.process(ms(elapsed));
        assert_eq!(timer, twice);
        assert_eq!(timer.alpha(), twice.alpha());
    }
}

#[test]
fn reset_puts_the_timer_back() {
    let mut timer = EffectTimer::from_ms(100, Interpolation::Linear).reversed();
    timer.process(ms(70));
    timer.reset();
    assert_eq!(timer, EffectTimer::from_ms(100, Interpolation::Linear).reversed());
    assert!(!timer.started());
    assert_eq!(timer.duration(), ms(100));
}

#[test]
fn timers_come_from_numbers_and_durations() {
    let linear = EffectTimer::new(ms(7), Interpolation::Linear);
    assert_eq!(EffectTimer::from(7u32), linear);
    assert_eq!(EffectTimer::from(ms(7)), linear);
    let eased = EffectTimer::new(ms(7), Interpolation::QuintIn);
    assert_eq!(EffectTimer::from((7u32, Interpolation::QuintIn)), eased);
    assert_eq!(EffectTimer::from((ms(7), Interpolation::QuintIn)), eased);
    assert_eq!(eased.interpolation(), Interpolation::QuintIn);
}

#[test]
fn durations_count_milliseconds() {
    assert_eq!(Duration::from_secs(2), ms(2000));
    assert_eq!(Duration::from_secs(u32::MAX), ms(u32::MAX));
    assert_eq!(Duration::zero(), ms(0));
    assert!(ms(0).is_zero());
    assert!(!ms(1).is_zero());
    assert!(ms(1) < ms(2));
}

const CURVES: [Interpolation; 22] = [
    Interpolation::Linear,
    Interpolation::QuadIn,
    Interpolation::QuadOut,
    Interpolation::QuadInOut,
    Interpolation::CubicIn,
    Interpolation::CubicOut,
    Interpolation::CubicInOut,
    Interpolation::QuartIn,
    Interpolation::QuartOut,
    Interpolation::QuartInOut,
    Interpolation::QuintIn,
    Interpolation::QuintOut,
    Interpolation::QuintInOut,
    Interpolation::CircIn,
    Interpolation::CircOut,
    Interpolation::CircInOut,
    Interpolation::BackIn,
    Interpolation::BackOut,
    Interpolation::BackInOut,
    Interpolation::BounceIn,
    Interpolation::BounceOut,
    Interpolation::BounceInOut,
];

#[test]
fn curves_start_at_zero_and_end_at_one() {
    for curve in CURVES {
        assert_eq!(curve.alpha(0), 0, "{curve:?}");
        assert_eq!(curve.alpha(ALPHA_ONE), ALPHA_ONE, "{curve:?}");
        assert_eq!(curve.alpha(ALPHA_ONE + 1), ALPHA_ONE, "{curve:?}");
        assert_eq!(curve.alpha(u32::MAX), ALPHA_ONE, "{curve:?}");
        for t in (0..=ALPHA_ONE).step_by(257) {
            assert!(curve.alpha(t) <= ALPHA_ONE, "{curve:?} at {t}");
        }
    }
}

#[test]
fn curves_at_one_half() {
    let half = ALPHA_ONE / 2;
    assert_eq!(Interpolation::Linear.alpha(half), half);
    assert_eq!(Interpolation::QuadIn.alpha(half), ALPHA_ONE / 4);
    assert_eq!(Interpolation::QuadOut.alpha(half), ALPHA_ONE / 4 * 3);
    assert_eq!(Interpolation::CubicIn.alpha(half), ALPHA_ONE / 8);
    assert_eq!(Interpolation::CubicOut.alpha(half), ALPHA_ONE / 8 * 7);
    assert_eq!(Interpolation::QuartIn.alpha(half), ALPHA_ONE / 16);
    assert_eq!(Interpolation::QuintIn.alpha(half), ALPHA_ONE / 32);
    assert_eq!(Interpolation::QuintOut.alpha(half), ALPHA_ONE / 32 * 31);
    for curve in [
        Interpolation::QuadInOut,
        Interpolation::CubicInOut,
        Interpolation::QuartInOut,
        Interpolation::QuintInOut,
        Interpolation::CircInOut,
        Interpolation::BackInOut,
        Interpolation::BounceInOut,
    ] {
        assert_eq!(curve.alpha(half), half, "{curve:?}");
    }
    assert_eq!(Interpolation::QuadInOut.alpha(ALPHA_ONE / 4), ALPHA_ONE / 8);
    assert_eq!(Interpolation::QuadInOut.alpha(ALPHA_ONE / 4 * 3), ALPHA_ONE / 8 * 7);
    assert_eq!(Interpolation::default(), Interpolation::Linear);
}

#[test]
fn quarter_circle_curves() {
    let half = ALPHA_ONE / 2;
    // 1 - sqrt(3) / 2
    assert_eq!(Interpolation::CircIn.alpha(half), 8781);
    assert_eq!(Interpolation::CircOut.alpha(half), ALPHA_ONE - 8781);
    assert_eq!(Interpolation::CircInOut.alpha(ALPHA_ONE / 4), 8781 / 2);
    assert_eq!(Interpolation::CircInOut.alpha(ALPHA_ONE / 4 * 3), ALPHA_ONE - 8781 / 2);
    // 1 - sqrt(1 - 0.6^2) = 0.2 and sqrt(1 - 0.8^2) = 0.6, to the last digit or so
    let close = |a: u32, b: f64| (a as f64 - b * 65536.0).abs() <= 2.0;
    assert!(close(Interpolation::CircIn.alpha(39322), 0.2));
    assert!(close(Interpolation::CircOut.alpha(13107), 0.6));
    assert_eq!(Interpolation::CircIn.alpha(1), 1);
    assert_eq!(Interpolation::CircOut.alpha(1), 362);
}

#[test]
fn curves_that_go_back_are_cut_off() {
    let half = ALPHA_ONE / 2;
    assert_eq!(Interpolation::BackIn.alpha(half), 0);
    assert_eq!(Interpolation::BackOut.alpha(half), ALPHA_ONE);
    assert_eq!(Interpolation::BackIn.alpha(ALPHA_ONE / 10), 0);
    // 2.70158 * 0.9^3 - 1.70158 * 0.9^2 = 0.59117...
    assert_eq!(Interpolation::BackIn.alpha(58982), 38740);
    assert_eq!(Interpolation::BackOut.alpha(ALPHA_ONE - 58982), ALPHA_ONE - 38740);
    let mut last = 0;
    for t in (0..=ALPHA_ONE).step_by(64) {
        let a = Interpolation::BackIn.alpha(t);
        assert!(a >= last, "at {t}");
        last = a;
    }
}

#[test]
fn bouncing_curves() {
    let half = ALPHA_ONE / 2;
    // 7.5625 * (0.5 - 1.5 / 2.75)^2 + 0.75 = 0.765625
    assert_eq!(Interpolation::BounceOut.alpha(half), 50176);
    assert_eq!(Interpolation::BounceIn.alpha(half), ALPHA_ONE - 50176);
    // the first arc ends at 4/11 on the ground, and the second leaves from there
    assert_eq!(Interpolation::BounceOut.alpha(23831), 65534);
    assert_eq!(Interpolation::BounceOut.alpha(23832), 65534);
    // the top of the first bounce, at 6/11
    assert_eq!(Interpolation::BounceOut.alpha(35747), 49152);
    // 7.5625 * 0.25^2 = 0.47265625
    assert_eq!(Interpolation::BounceOut.alpha(ALPHA_ONE / 4), 30976);
    assert_eq!(Interpolation::BounceInOut.alpha(ALPHA_ONE / 4), (ALPHA_ONE - 50176) / 2);
    assert_eq!(Interpolation::BounceInOut.alpha(ALPHA_ONE / 4 * 3), ALPHA_ONE - (ALPHA_ONE - 50176) / 2);
}

#[test]
fn generator_gives_the_same_values_for_the_same_seed() {
    let mut a = SimpleRng::new(42);
    let mut b = SimpleRng::new(42);
    let mut c = SimpleRng::new(43);
    let first: Vec<u32> = (0..5).map(|_| a.gen()).collect();
    let again: Vec<u32> = (0..5).map(|_| b.gen()).collect();
    let other: Vec<u32> = (0..5).map(|_| c.gen()).collect();
    assert_eq!(first, again);
    assert_ne!(first, other);
    assert_eq!(first[0], 42u32.wrapping_mul(1664525).wrapping_add(1013904223));
    assert_eq!(first[1], first[0].wrapping_mul(1664525).wrapping_add(1013904223));
}

#[test]
fn generator_fractions_lie_below_one() {
    let mut rng = SimpleRng::default();
    let mut copy = rng;
    for _ in 0..1000 {
        let f = rng.gen_fraction();
        assert!(f < 1 << 23);
        assert_eq!(f, copy.gen() >> 9);
    }
}
