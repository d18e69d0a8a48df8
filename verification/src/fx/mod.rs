//! The effects, and the functions that build them.
//!
//! Effects work on cells that have already been drawn: a widget is rendered, and the
//! effect then changes what was rendered.
//!
//! | Function | What the effect does |
//! |----------|----------------------|
//! | [`dissolve()`], [`dissolve_to()`] | blanks the cells, one by one |
//! | [`coalesce()`], [`coalesce_from()`] | brings blanked cells back, one by one |
//! | [`sleep()`] | lets time pass |
//! | [`consume_tick()`] | uses up one step |
//! | [`delay()`] | runs an effect after a pause |
//! | [`prolong_start()`], [`prolong_end()`] | holds an effect at its start or at its end |
//! | [`repeat()`], [`repeating()`] | runs an effect again and again |
//! | [`ping_pong()`] | runs an effect forwards, then backwards |
//! | [`never_complete()`] | runs an effect without end |
//! | [`with_duration()`], [`timed_never_complete()`] | limits the time of an effect |
//! | [`sequence()`] | runs effects one after the other |
//! | [`parallel()`] | runs effects side by side |
//! | [`translate()`] | moves the area of an effect |

pub mod sleep;
pub mod consume_tick;
pub mod never_complete;
pub mod containers;
pub mod dissolve;
pub mod ping_pong;
pub mod prolong;
pub mod temporary;
pub mod repeat;
pub mod translate;
pub mod leaf;
pub mod translate_buffer;
pub mod offscreen_buffer;
pub mod ansi256;
pub mod sweep_in;
pub mod slide;
pub mod direction;
pub mod sliding_window_alpha;
pub mod fade;
pub mod paint;
pub mod shader_fn;

use vstd::prelude::*;
use crate::cell::Style;
use crate::cell_filter::FilterView;
use crate::duration::Duration;
use crate::effect::{effect_views, Effect};
use crate::effect_timer::EffectTimer;
use crate::fx::ansi256::Ansi256;
use crate::fx::consume_tick::ConsumeTick;
use crate::fx::containers::{ParallelEffect, SequentialEffect};
use crate::fx::dissolve::Dissolve;
use crate::fx::fade::FadeColors;
use crate::fx::direction::Motion;
use crate::fx::slide::SlideCell;
use crate::fx::sweep_in::SweepIn;
use ratatui::style::Color;
use crate::fx::never_complete::NeverComplete;
use crate::fx::offscreen_buffer::OffscreenBuffer;
use crate::fx::translate_buffer::TranslateBuffer;
use crate::buffer::SharedBuffer;
use ratatui::layout::Offset;
use crate::fx::ping_pong::PingPong;
use crate::fx::prolong::Prolong;
use crate::fx::repeat::Repeat;
use crate::fx::shader_fn::{ShaderFn, ShaderFnContext, ShaderFnSignature};
use crate::cell::Cell;
use ratatui::buffer::Buffer;
use ratatui::layout::{Position, Size};
use crate::fx::sleep::Sleep;
use crate::fx::temporary::{IntoTemporaryEffect, TemporaryEffect};
use crate::fx::translate::Translate;
use crate::interpolation::Interpolation;
use crate::shader::Shader;
use crate::shader_view::{AreaChange, Look, ProlongPosition, RepeatMode, ShaderView};
use crate::simple_rng::SimpleRng;

verus! {

/// Whether `timer` is what converting `from` into a timer gives.
pub open spec fn timer_of<T: Into<EffectTimer>>(from: T, timer: EffectTimer) -> bool {
    call_ensures(<T as Into<EffectTimer>>::into, (from,), timer)
}

/// The state of a fresh effect that runs `code` for the time of `timer`.
pub open spec fn custom_view(timer: EffectTimer, code: ShaderFnSignature) -> ShaderView {
    ShaderView::Leaf { timer, area: None, filter: FilterView::All, look: Look::Custom { code } }
}

/// An effect that runs `f` on every frame, for the time of `timer`.
///
/// `f` is given the state, which starts as `state` and is kept from frame to frame; what
/// there is to know about the frame; and the cells that the effect's filter selects, each
/// with its position. What `f` leaves of the cells is what the buffer then shows.
///
/// Copies of the effect share the state.
pub fn effect_fn<F, S, T>(state: S, timer: T, f: F) -> (effect: Effect) where
    S: 'static,
    T: Into<EffectTimer>,
    F: FnMut(&mut S, ShaderFnContext, &mut [(Position, Cell)]) + 'static,

    ensures
        exists|t: EffectTimer, code: ShaderFnSignature|
            timer_of(timer, t) && code is Iter && effect.model() == #[trigger] custom_view(t, code),
{
    let t: EffectTimer = timer.into();
    assert(timer_of(timer, t));
    let code = ShaderFnSignature::new_iter(state, f);
    let ghost given = code;
    let effect = Effect::new(Shader::ShaderFn(ShaderFn::new(code, t)));
    assert(effect.model() == custom_view(t, given));
    effect
}

/// An effect that runs `f` on every frame, for the time of `timer`.
///
/// `f` is given the state, which starts as `state` and is kept from frame to frame; what
/// there is to know about the frame; and the buffer. What `f` leaves of the cells of the
/// buffer is what the buffer then shows; the area of the buffer stays as it is.
///
/// Copies of the effect share the state.
pub fn effect_fn_buf<F, S, T>(state: S, timer: T, f: F) -> (effect: Effect) where
    S: 'static,
    T: Into<EffectTimer>,
    F: FnMut(&mut S, ShaderFnContext, &mut Buffer) + 'static,

    ensures
        exists|t: EffectTimer, code: ShaderFnSignature|
            timer_of(timer, t) && code is Buffer && effect.model() == #[trigger] custom_view(
                t,
                code,
            ),
{
    let t: EffectTimer = timer.into();
    assert(timer_of(timer, t));
    let code = ShaderFnSignature::new_buffer(state, f);
    let ghost given = code;
    let effect = Effect::new(Shader::ShaderFn(ShaderFn::new(code, t)));
    assert(effect.model() == custom_view(t, given));
    effect
}

/// An effect that reduces the colors of the cells to the palette of 256, on every frame
/// and without end.
pub fn term256_colors() -> (effect: Effect)
    ensures
        effect.model() == (ShaderView::Ansi256 { area: None }),
{
    Effect::new(Shader::Ansi256(Ansi256::default()))
}

/// Repeats the effect without end, a number of times, or for a span of time.
pub fn repeat(effect: Effect, mode: RepeatMode) -> (repeated: Effect)
    ensures
        repeated.model() == (ShaderView::Repeat {
            fx: Box::new(effect.model()),
            mode,
            runs: Repeat::first_runs(mode),
            timer: Repeat::first_timer(mode),
        }),
{
    Effect::new(Shader::Repeat(Repeat::new(effect, mode)))
}

/// Plays the effect forwards and then backwards. The whole takes twice the time of the
/// effect.
pub fn ping_pong(effect: Effect) -> (played: Effect)
    ensures
        played.model() == (ShaderView::PingPong { fx: Box::new(effect.model()), reversing: false }),
{
    Effect::new(Shader::PingPong(PingPong::new(effect)))
}

/// Repeats the effect without end.
pub fn repeating(effect: Effect) -> (repeated: Effect)
    ensures
        repeated.model() == (ShaderView::Repeat {
            fx: Box::new(effect.model()),
            mode: RepeatMode::Forever,
            runs: 0,
            timer: Repeat::first_timer(RepeatMode::Forever),
        }),
{
    repeat(effect, RepeatMode::Forever)
}

/// The state of a fresh sweep with these measures and the timer `timer`.
pub open spec fn sweep_view(
    direction: Motion,
    gradient_length: u16,
    randomness: u16,
    color: Color,
    timer: EffectTimer,
) -> ShaderView {
    ShaderView::Leaf {
        timer,
        area: None,
        filter: FilterView::All,
        look: Look::Sweep {
            direction,
            gradient: gradient_length,
            spread: randomness,
            color,
            rng: SimpleRng::new_spec(0x5eed_1e55),
        },
    }
}

/// The state of a fresh slide with these measures and the timer `timer`.
pub open spec fn slide_view(
    direction: Motion,
    gradient_length: u16,
    randomness: u16,
    color: Color,
    timer: EffectTimer,
) -> ShaderView {
    ShaderView::Leaf {
        timer,
        area: None,
        filter: FilterView::All,
        look: Look::Slide {
            direction,
            gradient: gradient_length,
            spread: randomness,
            color,
            rng: SimpleRng::new_spec(0x5eed_1e55),
        },
    }
}

/// The timer of a slide out in `direction` that is given the timer `timer`: turned round
/// where the content leaves to the left or upwards.
pub open spec fn slide_timer(direction: Motion, timer: EffectTimer) -> EffectTimer {
    if direction.backwards() {
        timer.flipped()
    } else {
        timer
    }
}

/// Sweeps the cells out to a color: an edge crosses the area in `direction` and leaves
/// the cells behind it in `faded_color`.
///
/// It is [`sweep_in()`] in the opposite direction, turned round.
pub fn sweep_out<T: Into<EffectTimer>, C: Into<Color>>(
    direction: Motion,
    gradient_length: u16,
    randomness: u16,
    faded_color: C,
    timer: T,
) -> (effect: Effect)
    ensures
        exists|t: EffectTimer, color: Color|
            timer_of(timer, t) && color_of(faded_color, color) && effect.model()
                == #[trigger] sweep_view(
                direction.opposite(),
                gradient_length,
                randomness,
                color,
                t.flipped(),
            ),
{
    let swept = sweep_in(direction.flipped(), gradient_length, randomness, faded_color, timer);
    let ghost (t, color) = choose|t: EffectTimer, color: Color|
        timer_of(timer, t) && color_of(faded_color, color) && swept.model() == #[trigger] sweep_view(
            direction.opposite(),
            gradient_length,
            randomness,
            color,
            t,
        );
    let effect = swept.reversed();
    assert(effect.model() == sweep_view(
        direction.opposite(),
        gradient_length,
        randomness,
        color,
        t.flipped(),
    ));
    effect
}

/// Sweeps the cells in from a color: the cells start in `faded_color`, and an edge that
/// crosses the area in `direction` gives them their own colors back.
///
/// In a band of `gradient_length` cells behind the edge the colors lie between the two.
/// Each line of cells along the motion is held back by up to `randomness` cells, so that
/// the edge is ragged; with no randomness it is straight.
pub fn sweep_in<T: Into<EffectTimer>, C: Into<Color>>(
    direction: Motion,
    gradient_length: u16,
    randomness: u16,
    faded_color: C,
    timer: T,
) -> (effect: Effect)
    ensures
        exists|t: EffectTimer, color: Color|
            timer_of(timer, t) && color_of(faded_color, color) && effect.model()
                == #[trigger] sweep_view(direction, gradient_length, randomness, color, t),
{
    let t: EffectTimer = timer.into();
    let color: Color = faded_color.into();
    assert(timer_of(timer, t) && color_of(faded_color, color));
    let effect = Effect::new(
        Shader::Sweep(SweepIn::new(direction, gradient_length, randomness, color, t)),
    );
    assert(effect.model() == sweep_view(direction, gradient_length, randomness, color, t));
    effect
}

/// Slides the cells in from `direction`: the area starts covered by `color_behind_cells`,
/// and the content enters, the edge of the cover moving in `direction`.
///
/// It is [`slide_out()`] in the opposite direction, turned round.
pub fn slide_in<T: Into<EffectTimer>, C: Into<Color>>(
    direction: Motion,
    gradient_length: u16,
    randomness: u16,
    color_behind_cells: C,
    timer: T,
) -> (effect: Effect)
    ensures
        exists|t: EffectTimer, color: Color|
            timer_of(timer, t) && color_of(color_behind_cells, color) && effect.model()
                == #[trigger] slide_view(
                direction.opposite(),
                gradient_length,
                randomness,
                color,
                slide_timer(direction.opposite(), t).flipped(),
            ),
{
    let slid = slide_out(direction.flipped(), gradient_length, randomness, color_behind_cells, timer);
    let ghost (t, color) = choose|t: EffectTimer, color: Color|
        timer_of(timer, t) && color_of(color_behind_cells, color) && slid.model()
            == #[trigger] slide_view(
            direction.opposite(),
            gradient_length,
            randomness,
            color,
            slide_timer(direction.opposite(), t),
        );
    let effect = slid.reversed();
    assert(effect.model() == slide_view(
        direction.opposite(),
        gradient_length,
        randomness,
        color,
        slide_timer(direction.opposite(), t).flipped(),
    ));
    effect
}

/// Slides the cells out in `direction`: the content leaves the area, and
/// `color_behind_cells` covers what it leaves behind.
///
/// The edge of the cover always enters from the left or from the top. To slide out to the
/// left or upwards the effect therefore runs its timer backwards.
pub fn slide_out<T: Into<EffectTimer>, C: Into<Color>>(
    direction: Motion,
    gradient_length: u16,
    randomness: u16,
    color_behind_cells: C,
    timer: T,
) -> (effect: Effect)
    ensures
        exists|t: EffectTimer, color: Color|
            timer_of(timer, t) && color_of(color_behind_cells, color) && effect.model()
                == #[trigger] slide_view(
                direction,
                gradient_length,
                randomness,
                color,
                slide_timer(direction, t),
            ),
{
    let given: EffectTimer = timer.into();
    let color: Color = color_behind_cells.into();
    assert(timer_of(timer, given) && color_of(color_behind_cells, color));
    let timer = match direction {
        Motion::LeftToRight => given,
        Motion::RightToLeft => given.reversed(),
        Motion::UpToDown => given,
        Motion::DownToUp => given.reversed(),
    };
    let effect = Effect::new(
        Shader::Slide(SlideCell::new(timer, color, gradient_length, randomness, direction)),
    );
    assert(timer == slide_timer(direction, given));
    assert(effect.model() == slide_view(
        direction,
        gradient_length,
        randomness,
        color,
        slide_timer(direction, given),
    ));
    effect
}

/// Moves the area of the effect by `translate_by`, columns first, over the time of
/// `timer`. Without an effect only the move takes place; the moved area can then be read
/// from the effect that this function returns.
///
/// The effect is to be processed before the widgets that it moves are rendered.
pub fn translate<T: Into<EffectTimer>>(fx: Option<Effect>, translate_by: (i16, i16), timer: T) -> (moved:
    Effect)
    ensures
        exists|t: EffectTimer|
            #[trigger] timer_of(timer, t) && moved.model() == (ShaderView::Translate {
                wrapped: match fx {
                    Some(fx) => Some(Box::new(fx.model())),
                    None => None,
                },
                area: None,
                anchor: None,
                change: AreaChange::Translate(translate_by),
                timer: t,
            }),
{
    let t: EffectTimer = timer.into();
    assert(timer_of(timer, t));
    Effect::new(Shader::Translate(Translate::new(fx, translate_by, t)))
}

/// Resizes the area of the effect from `initial_size` to its own size over the time of
/// `timer`; the corner of the area stays where it is. Without an effect only the change
/// of size takes place; the area can then be read from the effect that this function
/// returns.
///
/// The effect is to be processed before the widgets that it resizes are rendered.
pub fn resize_area<T: Into<EffectTimer>>(fx: Option<Effect>, initial_size: Size, timer: T) -> (resized:
    Effect)
    ensures
        exists|t: EffectTimer|
            #[trigger] timer_of(timer, t) && resized.model() == (ShaderView::Translate {
                wrapped: match fx {
                    Some(fx) => Some(Box::new(fx.model())),
                    None => None,
                },
                area: None,
                anchor: None,
                change: AreaChange::Resize(initial_size),
                timer: t,
            }),
{
    let t: EffectTimer = timer.into();
    assert(timer_of(timer, t));
    Effect::new(Shader::Translate(Translate::resizing(fx, initial_size, t)))
}

/// Copies the content of `aux_buffer` onto the buffer, and moves the copy by
/// `translate_by` over the time of `timer`.
///
/// What is to be moved is rendered into `aux_buffer` once, and not again on every frame.
pub fn translate_buf<T: Into<EffectTimer>>(translate_by: Offset, aux_buffer: SharedBuffer, timer: T) -> (effect:
    Effect)
    ensures
        exists|t: EffectTimer|
            #[trigger] timer_of(timer, t) && effect.model() == (ShaderView::Leaf {
                timer: t,
                area: None,
                filter: FilterView::All,
                look: Look::TranslateBuffer { by: translate_by, source: aux_buffer },
            }),
{
    let t: EffectTimer = timer.into();
    assert(timer_of(timer, t));
    Effect::new(Shader::TranslateBuffer(TranslateBuffer::new(aux_buffer, translate_by, t)))
}

/// Makes the effect paint into `render_target` instead of the buffer that it is given.
/// The buffer that the effect is processed with stays as it is; what the effect paints
/// can be copied from `render_target` as needed.
pub fn offscreen_buffer(fx: Effect, render_target: SharedBuffer) -> (effect: Effect)
    ensures
        effect.model() == (ShaderView::Offscreen {
            inner: Box::new(fx.model()),
            target: render_target,
        }),
{
    Effect::new(Shader::Offscreen(OffscreenBuffer::new(fx, render_target)))
}

/// Runs the effects in sequence, one after the other. The sequence is done when the last
/// effect is.
pub fn sequence(effects: &[Effect]) -> (effect: Effect)
    ensures
        effect.model() == (ShaderView::Sequential { effects: effect_views(effects@) }),
{
    let copies = copies_of(effects);
    assert(effect_views(copies@) =~= effect_views(effects@));
    Effect::new(Shader::Sequential(SequentialEffect::new(copies)))
}

/// Runs the effects in parallel, all at the same time. The whole is done when all the
/// effects are.
pub fn parallel(effects: &[Effect]) -> (effect: Effect)
    ensures
        effect.model() == (ShaderView::Parallel { effects: effect_views(effects@) }),
{
    let copies = copies_of(effects);
    assert(effect_views(copies@) =~= effect_views(effects@));
    Effect::new(Shader::Parallel(ParallelEffect::new(copies)))
}

/// Copies of the effects.
fn copies_of(effects: &[Effect]) -> (copies: Vec<Effect>)
    ensures
        copies@.len() == effects@.len(),
        forall|j: int| 0 <= j < effects@.len() ==> (#[trigger] copies@[j]).model() == effects@[j].model(),
{
    let mut copies: Vec<Effect> = Vec::new();
    let mut i: usize = 0;
    while i < effects.len()
        invariant
            0 <= i <= effects@.len(),
            copies@.len() == i,
            forall|j: int| 0 <= j < i ==> (#[trigger] copies@[j]).model() == effects@[j].model(),
        decreases effects@.len() - i,
    {
        copies.push(effects[i].duplicate());
        i = i + 1;
    }
    copies
}

/// Blanks the cells over the time of `timer`, one by one in an order that the effect's
/// generator decides.
pub fn dissolve<T: Into<EffectTimer>>(timer: T) -> (effect: Effect)
    ensures
        exists|t: EffectTimer|
            #[trigger] timer_of(timer, t) && effect.model() == (ShaderView::Leaf {
                timer: t,
                area: None,
                filter: FilterView::All,
                look: Look::Dissolve { style: None, rng: SimpleRng::new_spec(0x5eed_1e55) },
            }),
{
    let t: EffectTimer = timer.into();
    assert(timer_of(timer, t));
    Effect::new(Shader::Dissolve(Dissolve::new(t)))
}

/// Blanks the cells over the time of `timer` and gives each blanked cell the style
/// `style`.
pub fn dissolve_to<T: Into<EffectTimer>>(style: Style, timer: T) -> (effect: Effect)
    ensures
        exists|t: EffectTimer|
            #[trigger] timer_of(timer, t) && effect.model() == (ShaderView::Leaf {
                timer: t,
                area: None,
                filter: FilterView::All,
                look: Look::Dissolve { style: Some(style), rng: SimpleRng::new_spec(0x5eed_1e55) },
            }),
{
    let t: EffectTimer = timer.into();
    assert(timer_of(timer, t));
    Effect::new(Shader::Dissolve(Dissolve::with_style(style, t)))
}

/// The reverse of [`dissolve()`]: the cells start blank and come back over the time of
/// `timer`.
pub fn coalesce<T: Into<EffectTimer>>(timer: T) -> (effect: Effect)
    ensures
        exists|t: EffectTimer|
            #[trigger] timer_of(timer, t) && effect.model() == (ShaderView::Leaf {
                timer: t.flipped(),
                area: None,
                filter: FilterView::All,
                look: Look::Dissolve { style: None, rng: SimpleRng::new_spec(0x5eed_1e55) },
            }),
{
    let t: EffectTimer = timer.into();
    assert(timer_of(timer, t));
    Effect::new(Shader::Dissolve(Dissolve::new(t.reversed())))
}

/// The reverse of [`dissolve_to()`]: the cells start blank, in the style `style`, and come
/// back over the time of `timer`.
pub fn coalesce_from<T: Into<EffectTimer>>(style: Style, timer: T) -> (effect: Effect)
    ensures
        exists|t: EffectTimer|
            #[trigger] timer_of(timer, t) && effect.model() == (ShaderView::Leaf {
                timer: t.flipped(),
                area: None,
                filter: FilterView::All,
                look: Look::Dissolve { style: Some(style), rng: SimpleRng::new_spec(0x5eed_1e55) },
            }),
{
    let t: EffectTimer = timer.into();
    assert(timer_of(timer, t));
    Effect::new(Shader::Dissolve(Dissolve::with_style(style, t.reversed())))
}

/// Fades the foreground color of the cells to `fg` over the time of `timer`.
pub fn fade_to_fg<T: Into<EffectTimer>, C: Into<Color>>(fg: C, timer: T) -> (effect: Effect)
    ensures
        exists|t: EffectTimer, to: Color|
            timer_of(timer, t) && color_of(fg, to) && effect.model() == #[trigger] fade_view(
                Some(to),
                None,
                t,
            ),
{
    let t: EffectTimer = timer.into();
    let to: Color = fg.into();
    assert(timer_of(timer, t) && color_of(fg, to));
    let effect = fade(Some(to), None, t, false);
    assert(effect.model() == fade_view(Some(to), None, t));
    effect
}

/// Fades the foreground color of the cells from `fg` to their own over the time of
/// `timer`.
pub fn fade_from_fg<T: Into<EffectTimer>, C: Into<Color>>(fg: C, timer: T) -> (effect: Effect)
    ensures
        exists|t: EffectTimer, to: Color|
            timer_of(timer, t) && color_of(fg, to) && effect.model() == #[trigger] fade_view(
                Some(to),
                None,
                t.flipped(),
            ),
{
    let t: EffectTimer = timer.into();
    let to: Color = fg.into();
    assert(timer_of(timer, t) && color_of(fg, to));
    let effect = fade(Some(to), None, t, true);
    assert(effect.model() == fade_view(Some(to), None, t.flipped()));
    effect
}

/// Fades the foreground and the background color of the cells to `fg` and `bg` over the
/// time of `timer`.
pub fn fade_to<T: Into<EffectTimer>, C: Into<Color>>(fg: C, bg: C, timer: T) -> (effect: Effect)
    ensures
        exists|t: EffectTimer, to: Color, back: Color|
            timer_of(timer, t) && color_of(fg, to) && color_of(bg, back) && effect.model()
                == #[trigger] fade_view(Some(to), Some(back), t),
{
    let t: EffectTimer = timer.into();
    let to: Color = fg.into();
    let back: Color = bg.into();
    assert(timer_of(timer, t) && color_of(fg, to) && color_of(bg, back));
    let effect = fade(Some(to), Some(back), t, false);
    assert(effect.model() == fade_view(Some(to), Some(back), t));
    effect
}

/// Fades the foreground and the background color of the cells from `fg` and `bg` to their
/// own over the time of `timer`.
pub fn fade_from<T: Into<EffectTimer>, C: Into<Color>>(fg: C, bg: C, timer: T) -> (effect: Effect)
    ensures
        exists|t: EffectTimer, to: Color, back: Color|
            timer_of(timer, t) && color_of(fg, to) && color_of(bg, back) && effect.model()
                == #[trigger] fade_view(Some(to), Some(back), t.flipped()),
{
    let t: EffectTimer = timer.into();
    let to: Color = fg.into();
    let back: Color = bg.into();
    assert(timer_of(timer, t) && color_of(fg, to) && color_of(bg, back));
    let effect = fade(Some(to), Some(back), t, true);
    assert(effect.model() == fade_view(Some(to), Some(back), t.flipped()));
    effect
}

/// Whether `color` is what converting `from` into a color gives.
pub open spec fn color_of<C: Into<Color>>(from: C, color: Color) -> bool {
    call_ensures(<C as Into<Color>>::into, (from,), color)
}

/// The state of a fresh fade towards `fg` and `bg` with the timer `timer`.
pub open spec fn fade_view(fg: Option<Color>, bg: Option<Color>, timer: EffectTimer) -> ShaderView {
    ShaderView::Leaf { timer, area: None, filter: FilterView::All, look: Look::Fade { fg, bg } }
}

/// A fade towards `fg` and `bg`, of which there must be one; from them, if `reverse`.
fn fade(fg: Option<Color>, bg: Option<Color>, timer: EffectTimer, reverse: bool) -> (effect: Effect)
    requires
        fg is Some || bg is Some,
    ensures
        effect.model() == fade_view(
            fg,
            bg,
            if reverse {
                timer.flipped()
            } else {
                timer
            },
        ),
{
    let timer = if reverse {
        timer.reversed()
    } else {
        timer
    };
    Effect::new(Shader::Fade(FadeColors::new(fg, bg, timer)))
}

/// Pauses for the time of `duration`.
pub fn sleep<T: Into<EffectTimer>>(duration: T) -> (effect: Effect)
    ensures
        exists|t: EffectTimer|
            #[trigger] timer_of(duration, t) && effect.model() == (ShaderView::Sleep { timer: t }),
{
    let t: EffectTimer = duration.into();
    assert(timer_of(duration, t));
    Effect::new(Shader::Sleep(Sleep::new(t)))
}

/// Runs the effect after a pause of `duration`: the sequence of a pause and the effect.
pub fn delay<T: Into<EffectTimer>>(duration: T, effect: Effect) -> (delayed: Effect)
    ensures
        exists|t: EffectTimer|
            #[trigger] timer_of(duration, t) && delayed.model() == (ShaderView::Sequential {
                effects: seq![ShaderView::Sleep { timer: t }, effect.model()],
            }),
{
    let t: EffectTimer = duration.into();
    assert(timer_of(duration, t));
    let mut effects: Vec<Effect> = Vec::new();
    effects.push(Effect::new(Shader::Sleep(Sleep::new(t))));
    effects.push(effect);
    assert(effect_views(effects@) =~= seq![ShaderView::Sleep { timer: t }, effect.model()]);
    Effect::new(Shader::Sequential(SequentialEffect::new(effects)))
}

/// Holds the effect at its first state for the time of `duration`, then lets it run.
pub fn prolong_start<T: Into<EffectTimer>>(duration: T, effect: Effect) -> (prolonged: Effect)
    ensures
        exists|t: EffectTimer|
            #[trigger] timer_of(duration, t) && prolonged.model() == (ShaderView::Prolong {
                position: ProlongPosition::Start,
                timer: t,
                inner: Box::new(effect.model()),
            }),
{
    let t: EffectTimer = duration.into();
    assert(timer_of(duration, t));
    Effect::new(Shader::Prolong(Prolong::new(ProlongPosition::Start, t, effect)))
}

/// Lets the effect run, then holds it at its last state for the time of `duration`.
pub fn prolong_end<T: Into<EffectTimer>>(duration: T, effect: Effect) -> (prolonged: Effect)
    ensures
        exists|t: EffectTimer|
            #[trigger] timer_of(duration, t) && prolonged.model() == (ShaderView::Prolong {
                position: ProlongPosition::End,
                timer: t,
                inner: Box::new(effect.model()),
            }),
{
    let t: EffectTimer = duration.into();
    assert(timer_of(duration, t));
    Effect::new(Shader::Prolong(Prolong::new(ProlongPosition::End, t, effect)))
}

/// An effect that is done after one step of time, whatever the length of the step.
pub fn consume_tick() -> (effect: Effect)
    ensures
        effect.model() == (ShaderView::ConsumeTick { consumed: false }),
{
    Effect::new(Shader::ConsumeTick(ConsumeTick::default()))
}

/// Makes the effect run without end: once it has reached its end it stays there, is
/// painted on every frame, and never reports completion.
pub fn never_complete(effect: Effect) -> (endless: Effect)
    ensures
        endless.model() == (ShaderView::NeverComplete { inner: Box::new(effect.model()) }),
{
    Effect::new(Shader::NeverComplete(NeverComplete::new(effect)))
}

/// Limits the time of the effect: the result is done after `duration`, or when the effect
/// is done, whichever comes first.
pub fn with_duration(duration: Duration, effect: Effect) -> (limited: Effect)
    ensures
        limited.model() == (ShaderView::Temporary {
            inner: Box::new(effect.model()),
            timer: EffectTimer::fresh(duration, Interpolation::Linear),
        }),
{
    effect.with_duration(duration)
}

/// Makes the effect run without end of its own, and ends it after `duration`.
pub fn timed_never_complete(duration: Duration, effect: Effect) -> (limited: Effect)
    ensures
        limited.model() == (ShaderView::Temporary {
            inner: Box::new(ShaderView::NeverComplete { inner: Box::new(effect.model()) }),
            timer: EffectTimer::fresh(duration, Interpolation::Linear),
        }),
{
    Effect::new(Shader::Temporary(TemporaryEffect::new(never_complete(effect), duration)))
}

} // verus!
