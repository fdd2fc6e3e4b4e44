//! Braille rendering: every 2x4 block of pixels becomes one character of the
//! Unicode Braille block U+2800..=U+28FF, with one raised dot per lit pixel.
use vstd::prelude::*;

verus! {

/// The `k`-th entry of the Braille dot table, in the order the renderer visits it:
/// the column and row of the dot inside its 2x4 cell and the dot's weight in the
/// cell's code point (Unicode dot numbering: dots 1, 2, 3, 7 down the left column,
/// dots 4, 5, 6, 8 down the right one).
pub open spec fn dot_entry(k: int) -> (int, int, int) {
    if k == 0 {
        (0, 0, 1)
    } else if k == 1 {
        (0, 1, 2)
    } else if k == 2 {
        (0, 2, 4)
    } else if k == 3 {
        (0, 3, 64)
    } else if k == 4 {
        (1, 0, 8)
    } else if k == 5 {
        (1, 1, 16)
    } else if k == 6 {
        (1, 2, 32)
    } else {
        (1, 3, 128)
    }
}

/// Whether the pixel at column `px`, row `py` of a `width`-wide, `height`-high
/// dot mask (stored row by row) is lit.
pub open spec fn dot_on(dots: Seq<bool>, width: int, height: int, px: int, py: int) -> bool {
    &&& 0 <= px < width
    &&& 0 <= py < height
    &&& dots[py * width + px]
}

/// Whether the dot of table entry `k` of cell (`bx`, `by`) is lit.
pub open spec fn cell_dot_on(dots: Seq<bool>, width: int, height: int, bx: int, by: int, k: int) -> bool {
    dot_on(dots, width, height, bx * 2 + dot_entry(k).0, by * 4 + dot_entry(k).1)
}

/// The sum of the weights of the lit dots among the first `n` table entries of cell (`bx`, `by`).
pub open spec fn cell_bits_upto(dots: Seq<bool>, width: int, height: int, bx: int, by: int, n: int) -> int
    decreases n,
{
    if n <= 0 {
        0
    } else {
        cell_bits_upto(dots, width, height, bx, by, n - 1) + if cell_dot_on(dots, width, height, bx, by, n - 1) {
            dot_entry(n - 1).2
        } else {
            0
        }
    }
}

/// The dot pattern of cell (`bx`, `by`): the sum of the weights of its lit dots.
pub open spec fn cell_bits(dots: Seq<bool>, width: int, height: int, bx: int, by: int) -> int {
    cell_bits_upto(dots, width, height, bx, by, 8)
}

/// The Braille character whose dot pattern is `bits`.
pub open spec fn braille_char(bits: int) -> char {
    (0x2800 + bits) as char
}

/// Row `by` of the Braille text: one character per whole 2-pixel-wide cell, then a newline.
pub open spec fn braille_row(dots: Seq<bool>, width: int, height: int, by: int) -> Seq<char> {
    Seq::new((width / 2) as nat, |bx: int| braille_char(cell_bits(dots, width, height, bx, by))).push('\n')
}

/// The first `rows` rows of the Braille text, one after the other.
pub open spec fn braille_text(dots: Seq<bool>, width: int, height: int, rows: int) -> Seq<char>
    decreases rows,
{
    if rows <= 0 {
        seq![]
    } else {
        braille_text(dots, width, height, rows - 1) + braille_row(dots, width, height, rows - 1)
    }
}

/// Whether `code` is a Unicode scalar value.
pub open spec fn is_scalar_value(code: int) -> bool {
    0 <= code <= 0x10FFFF && !(0xD800 <= code <= 0xDFFF)
}

/// Calls `char::from_u32`, which returns the character whose scalar value is
/// `code` where `code` is a Unicode scalar value, and `None` otherwise.
#[verifier::external_body]
fn char_from_u32(code: u32) -> (c: Option<char>)
    ensures
        is_scalar_value(code as int) ==> c == Some(code as char),
        !is_scalar_value(code as int) ==> c.is_none(),
{
    char::from_u32(code)
}

/// Calls `String::push`, which appends `c` to the end of `s`.
#[verifier::external_body]
fn string_push(s: &mut String, c: char)
    ensures
        final(s)@ == old(s)@.push(c),
{
    s.push(c)
}

/// The entry `k` of the Braille dot table.
fn dot_map_entry(k: usize) -> (e: (usize, usize, u32))
    requires
        k < 8,
    ensures
        e.0 == dot_entry(k as int).0,
        e.1 == dot_entry(k as int).1,
        e.2 == dot_entry(k as int).2,
{
    match k {
        0 => (0, 0, 1),
        1 => (0, 1, 2),
        2 => (0, 2, 4),
        3 => (0, 3, 64),
        4 => (1, 0, 8),
        5 => (1, 1, 16),
        6 => (1, 2, 32),
        _ => (1, 3, 128),
    }
}

/// The largest value `cell_bits_upto` can take with `n` table entries.
spec fn weight_total_upto(n: int) -> int
    decreases n,
{
    if n <= 0 {
        0
    } else {
        weight_total_upto(n - 1) + dot_entry(n - 1).2
    }
}

/// The dot pattern of the Braille cell at column `bx`, row `by` of cells.
pub fn braille_cell_bits(dots: &Vec<bool>, width: usize, height: usize, bx: usize, by: usize) -> (bits: u32)
    requires
        dots@.len() == width * height,
        bx < width / 2,
        by < height / 4,
    ensures
        bits == cell_bits(dots@, width as int, height as int, bx as int, by as int),
        bits < 256,
        (bits & 1u32 != 0) == dots@[(by * 4) * width + bx * 2],
        (bits & 2u32 != 0) == dots@[(by * 4 + 1) * width + bx * 2],
        (bits & 4u32 != 0) == dots@[(by * 4 + 2) * width + bx * 2],
        (bits & 64u32 != 0) == dots@[(by * 4 + 3) * width + bx * 2],
        (bits & 8u32 != 0) == dots@[(by * 4) * width + bx * 2 + 1],
        (bits & 16u32 != 0) == dots@[(by * 4 + 1) * width + bx * 2 + 1],
        (bits & 32u32 != 0) == dots@[(by * 4 + 2) * width + bx * 2 + 1],
        (bits & 128u32 != 0) == dots@[(by * 4 + 3) * width + bx * 2 + 1],
{
    let n = dots.len();
    let mut bits: u32 = 0;
    for k in 0..8usize
        invariant
            n == dots@.len(),
            dots@.len() == width * height,
            bx < width / 2,
            by < height / 4,
            bits == cell_bits_upto(dots@, width as int, height as int, bx as int, by as int, k as int),
            bits <= weight_total_upto(k as int),
    {
        let (dx, dy, weight) = dot_map_entry(k);
        proof {
            reveal_with_fuel(weight_total_upto, 9);
        }
        let px = bx * 2 + dx;
        let py = by * 4 + dy;
        if px < width && py < height {
            proof {
                assert(py * width + px < width * height) by (nonlinear_arith)
                    requires
                        px < width,
                        py < height,
                ;
                assert(py * width <= py * width + px);
            }
            if dots[py * width + px] {
                bits = bits + weight;
            }
        }
    }
    proof {
        reveal_with_fuel(weight_total_upto, 9);
        lemma_cell_bits_read_pixels(dots@, width as int, height as int, bx as int, by as int);
    }
    bits
}

/// Renders a dot mask of `width` x `height` pixels, stored row by row, as Braille text:
/// one line per whole 4-pixel-high band, one character per whole 2-pixel-wide cell,
/// each line ended by a newline. Pixels of a partial band or cell are dropped.
pub fn render_braille_dots(dots: &Vec<bool>, width: usize, height: usize) -> (text: String)
    requires
        dots@.len() == width * height,
    ensures
        text@ == braille_text(dots@, width as int, height as int, (height / 4) as int),
        text@.len() == (height / 4) * (width / 2 + 1),
        forall|r: int| 0 <= r < height / 4 ==> #[trigger] text@[r * (width / 2 + 1) + width / 2] == '\n',
        forall|r: int, c: int|
            #![trigger text@[r * (width / 2 + 1) + c]]
            0 <= r < height / 4 && 0 <= c < width / 2 ==> {
                let code = (text@[r * (width / 2 + 1) + c] as int) - 0x2800;
                &&& 0 <= code < 256
                &&& ((code as u32) & 1u32 != 0) == dots@[(r * 4) * width + c * 2]
                &&& ((code as u32) & 2u32 != 0) == dots@[(r * 4 + 1) * width + c * 2]
                &&& ((code as u32) & 4u32 != 0) == dots@[(r * 4 + 2) * width + c * 2]
                &&& ((code as u32) & 64u32 != 0) == dots@[(r * 4 + 3) * width + c * 2]
                &&& ((code as u32) & 8u32 != 0) == dots@[(r * 4) * width + c * 2 + 1]
                &&& ((code as u32) & 16u32 != 0) == dots@[(r * 4 + 1) * width + c * 2 + 1]
                &&& ((code as u32) & 32u32 != 0) == dots@[(r * 4 + 2) * width + c * 2 + 1]
                &&& ((code as u32) & 128u32 != 0) == dots@[(r * 4 + 3) * width + c * 2 + 1]
            },
{
    let out_w = width / 2;
    let out_h = height / 4;
    let mut output = String::new();
    for by in 0..out_h
        invariant
            out_w == width / 2,
            out_h == height / 4,
            dots@.len() == width * height,
            output@ == braille_text(dots@, width as int, height as int, by as int),
    {
        let ghost start = output@;
        for bx in 0..out_w
            invariant
                out_w == width / 2,
                by < out_h,
                out_h == height / 4,
                dots@.len() == width * height,
                output@ == start + Seq::new(
                    bx as nat,
                    |i: int| braille_char(cell_bits(dots@, width as int, height as int, i, by as int)),
                ),
        {
            let bits = braille_cell_bits(dots, width, height, bx, by);
            let cell = char_from_u32(0x2800 + bits).unwrap();
            let ghost before = output@;
            string_push(&mut output, cell);
            proof {
                assert(output@ =~= start + Seq::new(
                    (bx + 1) as nat,
                    |i: int| braille_char(cell_bits(dots@, width as int, height as int, i, by as int)),
                ));
            }
        }
        string_push(&mut output, '\n');
        proof {
            assert(output@ =~= braille_text(dots@, width as int, height as int, by + 1));
        }
    }
    proof {
        lemma_braille_text_layout(dots@, width as int, height as int, out_h as int);
        lemma_braille_text_reads_pixels(dots@, width as int, height as int);
    }
    output
}


/// Every Braille cell encodes its dots one to one: its dot pattern is below 256, so the
/// cell's code point is a scalar value in U+2800..=U+28FF, and the bit of each dot's
/// weight is set in the pattern exactly when that dot is lit.
pub proof fn lemma_cell_bits_encode_dots(dots: Seq<bool>, width: int, height: int, bx: int, by: int)
    ensures
        0 <= cell_bits(dots, width, height, bx, by) < 256,
        is_scalar_value(0x2800 + cell_bits(dots, width, height, bx, by)),
        forall|k: int|
            0 <= k < 8 ==> (((cell_bits(dots, width, height, bx, by) as u32) & (dot_entry(k).2 as u32)) != 0
                <==> #[trigger] cell_dot_on(dots, width, height, bx, by, k)),
{
    reveal_with_fuel(cell_bits_upto, 9);
    let b0 = cell_dot_on(dots, width, height, bx, by, 0);
    let b1 = cell_dot_on(dots, width, height, bx, by, 1);
    let b2 = cell_dot_on(dots, width, height, bx, by, 2);
    let b3 = cell_dot_on(dots, width, height, bx, by, 3);
    let b4 = cell_dot_on(dots, width, height, bx, by, 4);
    let b5 = cell_dot_on(dots, width, height, bx, by, 5);
    let b6 = cell_dot_on(dots, width, height, bx, by, 6);
    let b7 = cell_dot_on(dots, width, height, bx, by, 7);
    let total = cell_bits(dots, width, height, bx, by);
    assert(0 <= total < 256);
    let bits = total as u32;
    assert(bits == (if b0 { 1u32 } else { 0u32 }) + (if b1 { 2u32 } else { 0u32 }) + (if b2 { 4u32 } else { 0u32 })
        + (if b3 { 64u32 } else { 0u32 }) + (if b4 { 8u32 } else { 0u32 }) + (if b5 { 16u32 } else { 0u32 })
        + (if b6 { 32u32 } else { 0u32 }) + (if b7 { 128u32 } else { 0u32 }));
    assert({
        &&& ((bits & 1u32) != 0) == b0
        &&& ((bits & 2u32) != 0) == b1
        &&& ((bits & 4u32) != 0) == b2
        &&& ((bits & 64u32) != 0) == b3
        &&& ((bits & 8u32) != 0) == b4
        &&& ((bits & 16u32) != 0) == b5
        &&& ((bits & 32u32) != 0) == b6
        &&& ((bits & 128u32) != 0) == b7
    }) by (bit_vector)
        requires
            bits == (if b0 { 1u32 } else { 0u32 }) + (if b1 { 2u32 } else { 0u32 }) + (if b2 { 4u32 } else { 0u32 })
                + (if b3 { 64u32 } else { 0u32 }) + (if b4 { 8u32 } else { 0u32 }) + (if b5 { 16u32 } else { 0u32 })
                + (if b6 { 32u32 } else { 0u32 }) + (if b7 { 128u32 } else { 0u32 }),
    ;
}

/// Each Braille cell reads the frame directly: for cell (`bx`, `by`) of a row-major mask of
/// `width` x `height` pixels, whatever the width, the pattern is below 256 and its bit
/// 1, 2, 4, 64 is set exactly when the pixel at column `bx*2`, rows `by*4` .. `by*4+3` is lit
/// (element `row * width + column` of the mask), and its bit 8, 16, 32, 128 exactly when the
/// pixel at column `bx*2+1` of the same rows is lit.
pub proof fn lemma_cell_bits_read_pixels(dots: Seq<bool>, width: int, height: int, bx: int, by: int)
    requires
        dots.len() == width * height,
        0 <= bx < width / 2,
        0 <= by < height / 4,
    ensures
        0 <= cell_bits(dots, width, height, bx, by) < 256,
        ((cell_bits(dots, width, height, bx, by) as u32) & 1u32 != 0) == dots[(by * 4) * width + bx * 2],
        ((cell_bits(dots, width, height, bx, by) as u32) & 2u32 != 0) == dots[(by * 4 + 1) * width + bx * 2],
        ((cell_bits(dots, width, height, bx, by) as u32) & 4u32 != 0) == dots[(by * 4 + 2) * width + bx * 2],
        ((cell_bits(dots, width, height, bx, by) as u32) & 64u32 != 0) == dots[(by * 4 + 3) * width + bx * 2],
        ((cell_bits(dots, width, height, bx, by) as u32) & 8u32 != 0) == dots[(by * 4) * width + bx * 2 + 1],
        ((cell_bits(dots, width, height, bx, by) as u32) & 16u32 != 0) == dots[(by * 4 + 1) * width + bx * 2 + 1],
        ((cell_bits(dots, width, height, bx, by) as u32) & 32u32 != 0) == dots[(by * 4 + 2) * width + bx * 2 + 1],
        ((cell_bits(dots, width, height, bx, by) as u32) & 128u32 != 0) == dots[(by * 4 + 3) * width + bx * 2 + 1],
{
    lemma_cell_bits_encode_dots(dots, width, height, bx, by);
    assert(bx * 2 + 1 < width);
    assert(by * 4 + 3 < height);
    assert(cell_dot_on(dots, width, height, bx, by, 0) == dots[(by * 4 + 0) * width + bx * 2 + 0]);
    assert(cell_dot_on(dots, width, height, bx, by, 1) == dots[(by * 4 + 1) * width + bx * 2 + 0]);
    assert(cell_dot_on(dots, width, height, bx, by, 2) == dots[(by * 4 + 2) * width + bx * 2 + 0]);
    assert(cell_dot_on(dots, width, height, bx, by, 3) == dots[(by * 4 + 3) * width + bx * 2 + 0]);
    assert(cell_dot_on(dots, width, height, bx, by, 4) == dots[(by * 4 + 0) * width + bx * 2 + 1]);
    assert(cell_dot_on(dots, width, height, bx, by, 5) == dots[(by * 4 + 1) * width + bx * 2 + 1]);
    assert(cell_dot_on(dots, width, height, bx, by, 6) == dots[(by * 4 + 2) * width + bx * 2 + 1]);
    assert(cell_dot_on(dots, width, height, bx, by, 7) == dots[(by * 4 + 3) * width + bx * 2 + 1]);
}

/// The Braille text is laid out as a grid: `rows` lines of `width / 2` cell characters,
/// each line ended by a newline, where the character at line `r`, column `c` is the
/// Braille character of cell (`c`, `r`).
pub proof fn lemma_braille_text_layout(dots: Seq<bool>, width: int, height: int, rows: int)
    requires
        width >= 0,
        rows >= 0,
    ensures
        braille_text(dots, width, height, rows).len() == rows * (width / 2 + 1),
        forall|r: int, c: int|
            0 <= r < rows && 0 <= c <= width / 2 ==> #[trigger] braille_text(dots, width, height, rows)[r * (width / 2 + 1) + c]
                == if c == width / 2 {
                '\n'
            } else {
                braille_char(cell_bits(dots, width, height, c, r))
            },
    decreases rows,
{
    let line = width / 2 + 1;
    if rows > 0 {
        lemma_braille_text_layout(dots, width, height, rows - 1);
        let prev = braille_text(dots, width, height, rows - 1);
        let text = braille_text(dots, width, height, rows);
        assert(rows * line == (rows - 1) * line + line) by (nonlinear_arith);
        assert forall|r: int, c: int| 0 <= r < rows && 0 <= c <= width / 2 implies #[trigger] text[r * line + c]
            == if c == width / 2 {
            '\n'
        } else {
            braille_char(cell_bits(dots, width, height, c, r))
        } by {
            if r < rows - 1 {
                assert(r * line + c < (rows - 1) * line) by (nonlinear_arith)
                    requires
                        0 <= r < rows - 1,
                        0 <= c < line,
                ;
                assert(0 <= r * line) by (nonlinear_arith)
                    requires
                        0 <= r,
                        0 <= line,
                ;
            } else {
                assert(r * line == (rows - 1) * line);
            }
        }
    }
}

} // verus!
verus! {

/// The whole Braille text reads the frame directly: it has `height / 4` lines of
/// `width / 2` characters each followed by a newline, and the character at line `r`,
/// column `c` is U+2800 plus a pattern below 256 whose bits 1, 2, 4, 64 are set exactly when
/// the pixels at column `c*2`, rows `r*4` .. `r*4+3` of the row-major mask are lit, and whose
/// bits 8, 16, 32, 128 are set exactly when the pixels at column `c*2+1` of those rows are lit.
pub proof fn lemma_braille_text_reads_pixels(dots: Seq<bool>, width: int, height: int)
    requires
        width >= 0,
        height >= 0,
        dots.len() == width * height,
    ensures
        braille_text(dots, width, height, height / 4).len() == (height / 4) * (width / 2 + 1),
        forall|r: int|
            0 <= r < height / 4 ==> #[trigger] braille_text(dots, width, height, height / 4)[r * (width / 2 + 1) + width / 2]
                == '\n',
        forall|r: int, c: int|
            #![trigger braille_text(dots, width, height, height / 4)[r * (width / 2 + 1) + c]]
            0 <= r < height / 4 && 0 <= c < width / 2 ==> {
                let code = (braille_text(dots, width, height, height / 4)[r * (width / 2 + 1) + c] as int) - 0x2800;
                &&& 0 <= code < 256
                &&& ((code as u32) & 1u32 != 0) == dots[(r * 4) * width + c * 2]
                &&& ((code as u32) & 2u32 != 0) == dots[(r * 4 + 1) * width + c * 2]
                &&& ((code as u32) & 4u32 != 0) == dots[(r * 4 + 2) * width + c * 2]
                &&& ((code as u32) & 64u32 != 0) == dots[(r * 4 + 3) * width + c * 2]
                &&& ((code as u32) & 8u32 != 0) == dots[(r * 4) * width + c * 2 + 1]
                &&& ((code as u32) & 16u32 != 0) == dots[(r * 4 + 1) * width + c * 2 + 1]
                &&& ((code as u32) & 32u32 != 0) == dots[(r * 4 + 2) * width + c * 2 + 1]
                &&& ((code as u32) & 128u32 != 0) == dots[(r * 4 + 3) * width + c * 2 + 1]
            },
{
    let rows = height / 4;
    lemma_braille_text_layout(dots, width, height, rows);
    let text = braille_text(dots, width, height, rows);
    assert forall|r: int, c: int|
        #![trigger braille_text(dots, width, height, height / 4)[r * (width / 2 + 1) + c]]
        0 <= r < rows && 0 <= c < width / 2 implies {
            let code = (text[r * (width / 2 + 1) + c] as int) - 0x2800;
            &&& 0 <= code < 256
            &&& ((code as u32) & 1u32 != 0) == dots[(r * 4) * width + c * 2]
            &&& ((code as u32) & 2u32 != 0) == dots[(r * 4 + 1) * width + c * 2]
            &&& ((code as u32) & 4u32 != 0) == dots[(r * 4 + 2) * width + c * 2]
            &&& ((code as u32) & 64u32 != 0) == dots[(r * 4 + 3) * width + c * 2]
            &&& ((code as u32) & 8u32 != 0) == dots[(r * 4) * width + c * 2 + 1]
            &&& ((code as u32) & 16u32 != 0) == dots[(r * 4 + 1) * width + c * 2 + 1]
            &&& ((code as u32) & 32u32 != 0) == dots[(r * 4 + 2) * width + c * 2 + 1]
            &&& ((code as u32) & 128u32 != 0) == dots[(r * 4 + 3) * width + c * 2 + 1]
        } by {
        lemma_cell_bits_read_pixels(dots, width, height, c, r);
        let bits = cell_bits(dots, width, height, c, r);
        assert(text[r * (width / 2 + 1) + c] == braille_char(bits));
        assert((braille_char(bits) as int) == 0x2800 + bits);
    }
}

} // verus!
