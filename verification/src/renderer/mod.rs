pub mod pixels;
pub mod rasterizer;

pub use pixels::PixelMode;
pub use rasterizer::{CharStyle, ColorPalette, RenderMode};
