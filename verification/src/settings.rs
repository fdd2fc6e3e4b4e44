//! Rendering options of the conversion engine.
use vstd::prelude::*;

verus! {

/// How characters are chosen to represent a pixel region.
#[derive(Debug, Clone, Copy, PartialEq, Eq, Structural)]
pub enum ArtStyle {
    /// One character per pixel, chosen by luminance.
    Classic,
    /// Unicode Braille: 2x4 pixel cells mapped to U+2800..U+28FF.
    Braille,
}

/// Error-diffusion and ordered dithering algorithms.
#[derive(Debug, Clone, Copy, PartialEq, Eq, Structural)]
pub enum DitherMethod {
    /// No dithering: the luminance buffer is left as it is.
    Off,
    FloydSteinberg,
    Bayer,
    Atkinson,
}

/// How the RGB value of each output character is determined.
#[derive(Debug, Clone, Copy, PartialEq, Eq, Structural)]
pub enum ColorMode {
    Grayscale,
    FullColor,
    MatrixGreen,
    AmberMonitor,
}

} // verus!
