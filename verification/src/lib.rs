//! Time-driven visual effects for grids of styled terminal cells.
//!
//! An [`Effect`] owns a shader, is driven once per frame with the time that has passed,
//! and paints into a cell buffer. Effects are built by the functions of [`fx`] and
//! combined by its combinators. A [`CellFilter`] limits an effect to some of the cells.
//!
//! Time is counted in milliseconds, and alpha in fractions of
//! [`ALPHA_ONE`](interpolation::ALPHA_ONE).

pub mod duration;
pub mod interpolation;
pub mod effect_timer;
pub mod geometry;
pub mod text;
pub mod cell;
pub mod color_ext;
pub mod buffer;
pub mod buffer_renderer;
pub mod cell_filter;
pub mod cell_iter;
pub mod simple_rng;
pub mod shader_view;
pub mod effect_span;
pub mod shader;
pub mod effect;
pub mod fx;

pub use buffer::{ref_count, SharedBuffer};
pub use buffer_renderer::{blit_buffer, blit_buffer_region, render_as_ansi_string, BufferRenderer};
pub use cell::{Cell, Modifier, Style};
pub use cell_filter::{CellFilter, CellPredicate};
pub use cell_iter::CellIterator;
pub use duration::Duration;
pub use effect::{Effect, EffectRenderer};
pub use effect_span::EffectSpan;
pub use effect_timer::EffectTimer;
pub use fx::direction::Motion;
pub use fx::shader_fn::{ShaderFnContext, ShaderFnSignature};
pub use fx::temporary::IntoTemporaryEffect;
pub use interpolation::Interpolation;
pub use shader::Shader;
pub use shader_view::{ProlongPosition, RepeatMode};
pub use simple_rng::SimpleRng;
