//! Terminal 3D ASCII rendering: the verified core.
//!
//! This crate holds the integer and text logic of the renderer: the cyclic
//! style and mode selectors, the glyph tables that pack sub-cell pixels into
//! block, sextant, octant and braille characters, the countdown timer (its
//! duration parser, clock, digit font and layout), GIF decoding and frame
//! timing, the STL and OBJ file framing, the viewer's key handling and
//! command line, and the integer parts of the particle and noise
//! generators. Floating-point shading and projection live with the
//! application around it.

pub mod cli;
pub mod error;
pub mod renderer;
pub mod shapes;
pub mod text;
pub mod time;
pub mod viewer;
pub mod widget;

pub use cli::{parse_args, Args};
pub use error::{Error, IoFailure};
pub use renderer::{CharStyle, ColorPalette, PixelMode, RenderMode};
pub use shapes::{AnimatedGif, Countdown, CountdownState, GifFrame, ParticlePreset, SdfPreset};
pub use time::TimeSpan;
pub use widget::Shape;
