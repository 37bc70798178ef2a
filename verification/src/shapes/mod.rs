pub mod countdown;
pub mod gif;
pub mod mesh;
pub mod particles;
pub mod sdf;

pub use countdown::{Countdown, CountdownState};
pub use gif::{AnimatedGif, GifFrame};
pub use particles::ParticlePreset;
pub use sdf::SdfPreset;
