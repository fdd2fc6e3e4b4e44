//! The conversion engine: frame layout, dithering kernels and renderers.
use vstd::prelude::*;

pub mod braille;
pub mod classic;
pub mod dither;
pub mod frame;
pub mod pipeline;
pub mod renderer;

pub use crate::engine::renderer::ColoredChar;

verus! {

/// What a render produced, tagged so that the caller knows which style it received.
pub enum RenderOutput {
    Classic(Vec<ColoredChar>),
    Braille(String),
}

} // verus!
