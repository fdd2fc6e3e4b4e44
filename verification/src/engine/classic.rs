//! Classic rendering: one character of the ramp per pixel, painted in its colour.
use vstd::prelude::*;

use crate::engine::renderer::ColoredChar;

verus! {

/// The characters of `charset`, in order.
pub fn charset_glyphs(charset: &str) -> (glyphs: Vec<char>)
    ensures
        glyphs@ == charset@,
{
    let mut glyphs: Vec<char> = Vec::new();
    for c in it: charset.chars()
        invariant
            it.seq() == charset@,
            glyphs@ == charset@.take(it.index() as int),
    {
        glyphs.push(c);
        proof {
            assert(glyphs@ =~= charset@.take(it.index() + 1));
        }
    }
    proof {
        assert(glyphs@ =~= charset@);
    }
    glyphs
}


/// The cell that pixel `i` becomes: glyph `levels[i]` of the ramp, painted in `colors[i]`.
pub open spec fn classic_cell(ramp: Seq<char>, levels: Seq<usize>, colors: Seq<(u8, u8, u8)>, i: int) -> ColoredChar {
    ColoredChar { glyph: ramp[levels[i] as int], r: colors[i].0, g: colors[i].1, b: colors[i].2 }
}

/// Renders pixels in the classic style: pixel `i` becomes the character at position
/// `levels[i]` of the ramp `charset` (ordered dark to light), painted in `colors[i]`.
pub fn render_classic_cells(charset: &str, levels: &Vec<usize>, colors: &Vec<(u8, u8, u8)>) -> (cells: Vec<ColoredChar>)
    requires
        charset@.len() > 0,
        levels@.len() == colors@.len(),
        forall|i: int| 0 <= i < levels@.len() ==> levels@[i] < charset@.len(),
    ensures
        cells@.len() == levels@.len(),
        forall|i: int| 0 <= i < levels@.len() ==> #[trigger] cells@[i] == classic_cell(charset@, levels@, colors@, i),
        forall|i: int|
            0 <= i < levels@.len() ==> {
                &&& (#[trigger] cells@[i]).glyph == charset@[levels@[i] as int]
                &&& cells@[i].r == colors@[i].0
                &&& cells@[i].g == colors@[i].1
                &&& cells@[i].b == colors@[i].2
            },
{
    let glyphs = charset_glyphs(charset);
    let mut cells: Vec<ColoredChar> = Vec::new();
    for i in 0..levels.len()
        invariant
            glyphs@ == charset@,
            levels@.len() == colors@.len(),
            forall|j: int| 0 <= j < levels@.len() ==> levels@[j] < charset@.len(),
            cells@.len() == i,
            forall|j: int| 0 <= j < i ==> #[trigger] cells@[j] == classic_cell(charset@, levels@, colors@, j),
    {
        let (r, g, b) = colors[i];
        cells.push(ColoredChar::new(glyphs[levels[i]], r, g, b));
    }
    proof {
        lemma_classic_cell_fields(charset@, levels@, colors@);
    }
    cells
}

/// A classic cell is the ramp character at the pixel's level, painted in the pixel's own
/// colour: red from the first component, green from the second, blue from the third.
pub proof fn lemma_classic_cell_fields(ramp: Seq<char>, levels: Seq<usize>, colors: Seq<(u8, u8, u8)>)
    ensures
        forall|i: int|
            0 <= i < levels.len() ==> {
                &&& (#[trigger] classic_cell(ramp, levels, colors, i)).glyph == ramp[levels[i] as int]
                &&& classic_cell(ramp, levels, colors, i).r == colors[i].0
                &&& classic_cell(ramp, levels, colors, i).g == colors[i].1
                &&& classic_cell(ramp, levels, colors, i).b == colors[i].2
            },
{
}

} // verus!
