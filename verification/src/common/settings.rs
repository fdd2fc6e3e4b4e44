//! Settings of the grid-sizing front end.
use vstd::prelude::*;

verus! {

/// How the output characters are coloured by the grid-sizing front end.
#[derive(Debug, Clone, Copy, PartialEq, Eq, Structural)]
pub enum ColorMode {
    Grayscale,
    Color,
}

/// The character-art styles known to the grid-sizing front end.
#[derive(Debug, Clone, Copy, PartialEq, Eq, Structural)]
pub enum ArtStyle {
    Classic,
}

} // verus!
