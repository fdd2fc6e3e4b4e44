//! Image-to-character-art conversion: the integer core of the pipeline
//! (pixel layout, dithering kernels, Braille cell encoding, glyph grids).
pub mod common;
pub mod engine;
pub mod settings;
