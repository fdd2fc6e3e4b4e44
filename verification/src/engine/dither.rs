//! Dithering kernels: which neighbours receive which share of a pixel's quantisation
//! error (Floyd-Steinberg, Atkinson), and the 4x4 Bayer threshold matrix.
use vstd::prelude::*;

use crate::settings::DitherMethod;

verus! {

/// A share of one pixel's quantisation error: the row-major index of the pixel that
/// receives it, and the numerator of the fraction it receives over the kernel's denominator.
#[derive(Debug, Clone, Copy, PartialEq, Eq, Structural)]
pub struct ErrorShare {
    pub index: usize,
    pub numerator: u32,
}

/// An error share as a pair of integers: target index and numerator.
pub open spec fn share_view(s: ErrorShare) -> (int, int) {
    (s.index as int, s.numerator as int)
}

/// The denominator of the error fractions of a kernel: sixteenths for Floyd-Steinberg,
/// eighths for Atkinson (which hands out six of its eight eighths and drops the rest).
pub open spec fn kernel_denominator(method: DitherMethod) -> int {
    match method {
        DitherMethod::FloydSteinberg => 16,
        DitherMethod::Atkinson => 8,
        _ => 1,
    }
}

/// One share where `present` holds, none otherwise.
pub open spec fn share_if(present: bool, index: int, numerator: int) -> Seq<(int, int)> {
    if present {
        seq![(index, numerator)]
    } else {
        seq![]
    }
}

/// The shares of the quantisation error of pixel (`x`, `y`) of a `width` x `height` frame,
/// in the order the kernel hands them out. Neighbours outside the frame receive nothing;
/// the ordered (Bayer) method and no dithering spread no error.
pub open spec fn kernel_shares(method: DitherMethod, x: int, y: int, width: int, height: int) -> Seq<(int, int)> {
    let idx = y * width + x;
    match method {
        DitherMethod::FloydSteinberg => share_if(x + 1 < width, idx + 1, 7) + share_if(x > 0 && y + 1 < height, idx + width - 1, 3)
            + share_if(y + 1 < height, idx + width, 5) + share_if(x + 1 < width && y + 1 < height, idx + width + 1, 1),
        DitherMethod::Atkinson => share_if(x + 1 < width, idx + 1, 1) + share_if(x + 2 < width, idx + 2, 1)
            + share_if(x > 0 && y + 1 < height, idx + width - 1, 1) + share_if(y + 1 < height, idx + width, 1)
            + share_if(x + 1 < width && y + 1 < height, idx + width + 1, 1) + share_if(y + 2 < height, idx + width + width, 1),
        _ => seq![],
    }
}

/// The sum of the numerators of a list of shares.
pub open spec fn share_total(shares: Seq<(int, int)>) -> int
    decreases shares.len(),
{
    if shares.len() == 0 {
        0
    } else {
        share_total(shares.drop_last()) + shares.last().1
    }
}

/// The denominator of the error fractions of `method`.
pub fn error_denominator(method: DitherMethod) -> (d: u32)
    ensures
        d == kernel_denominator(method),
{
    match method {
        DitherMethod::FloydSteinberg => 16,
        DitherMethod::Atkinson => 8,
        _ => 1,
    }
}

/// Whether dithering does anything for `method` and a character ramp of `charset_len`
/// characters: no dithering is asked for, or fewer than two shades exist, means nothing to do.
pub fn dithering_applies(method: DitherMethod, charset_len: usize) -> (applies: bool)
    ensures
        applies == (method != DitherMethod::Off && charset_len >= 2),
{
    match method {
        DitherMethod::Off => false,
        _ => charset_len >= 2,
    }
}

/// Appends a share to `shares` where `present` holds.
fn push_share_if(shares: &mut Vec<ErrorShare>, present: bool, index: usize, numerator: u32)
    ensures
        final(shares)@.map_values(|s: ErrorShare| share_view(s)) == old(shares)@.map_values(
            |s: ErrorShare| share_view(s),
        ) + share_if(present, index as int, numerator as int),
{
    let ghost before = shares@;
    if present {
        shares.push(ErrorShare { index, numerator });
    }
    proof {
        assert(shares@.map_values(|s: ErrorShare| share_view(s)) =~= before.map_values(
            |s: ErrorShare| share_view(s),
        ) + share_if(present, index as int, numerator as int));
    }
}

/// The shares of the quantisation error of pixel (`x`, `y`) that `method` spreads to its
/// neighbours in a `width` x `height` frame stored row by row.
pub fn error_shares(method: DitherMethod, x: usize, y: usize, width: usize, height: usize) -> (shares: Vec<ErrorShare>)
    requires
        x < width,
        y < height,
        width * height <= usize::MAX,
    ensures
        shares@.map_values(|s: ErrorShare| share_view(s)) == kernel_shares(
            method,
            x as int,
            y as int,
            width as int,
            height as int,
        ),
{
    let mut shares: Vec<ErrorShare> = Vec::new();
    proof {
        assert(y * width + x < width * height) by (nonlinear_arith)
            requires
                x < width,
                y < height,
        ;
        assert(y * width <= y * width + x);
        assert(y * width + width <= width * height) by (nonlinear_arith)
            requires
                y < height,
        ;
        assert(y + 1 < height ==> (y + 1) * width + width <= width * height) by (nonlinear_arith)
            requires
                y < height,
        ;
        assert(y + 2 < height ==> (y + 2) * width + width <= width * height) by (nonlinear_arith)
            requires
                y < height,
        ;
        assert((y + 1) * width == y * width + width) by (nonlinear_arith);
        assert((y + 2) * width == y * width + width + width) by (nonlinear_arith);
        assert(shares@.map_values(|s: ErrorShare| share_view(s)) =~= seq![]);
    }
    let idx = y * width + x;
    let has_right = x + 1 < width;
    let has_below = y + 1 < height;
    match method {
        DitherMethod::FloydSteinberg => {
            push_share_if(&mut shares, has_right, if has_right { idx + 1 } else { 0 }, 7);
            push_share_if(&mut shares, x > 0 && has_below, if x > 0 && has_below { idx + width - 1 } else { 0 }, 3);
            push_share_if(&mut shares, has_below, if has_below { idx + width } else { 0 }, 5);
            push_share_if(&mut shares, has_right && has_below, if has_right && has_below { idx + width + 1 } else { 0 }, 1);
        },
        DitherMethod::Atkinson => {
            let has_right2 = x + 1 < width - 1;
            let has_below2 = y + 1 < height - 1;
            push_share_if(&mut shares, has_right, if has_right { idx + 1 } else { 0 }, 1);
            push_share_if(&mut shares, has_right2, if has_right2 { idx + 2 } else { 0 }, 1);
            push_share_if(&mut shares, x > 0 && has_below, if x > 0 && has_below { idx + width - 1 } else { 0 }, 1);
            push_share_if(&mut shares, has_below, if has_below { idx + width } else { 0 }, 1);
            push_share_if(&mut shares, has_right && has_below, if has_right && has_below { idx + width + 1 } else { 0 }, 1);
            push_share_if(&mut shares, has_below2, if has_below2 { idx + width + width } else { 0 }, 1);
        },
        _ => {},
    }
    proof {
        assert(shares@.map_values(|s: ErrorShare| share_view(s)) =~= kernel_shares(
            method,
            x as int,
            y as int,
            width as int,
            height as int,
        ));
    }
    shares
}


/// The share of the error that a kernel hands out at a pixel whose neighbours all lie in
/// the frame: all sixteen sixteenths for Floyd-Steinberg, six of eight eighths for Atkinson.
pub open spec fn kernel_spread(method: DitherMethod) -> int {
    match method {
        DitherMethod::FloydSteinberg => 16,
        DitherMethod::Atkinson => 6,
        _ => 0,
    }
}

/// Whether every neighbour that `method` spreads error to from pixel (`x`, `y`) lies in the frame.
pub open spec fn all_neighbours_inside(method: DitherMethod, x: int, y: int, width: int, height: int) -> bool {
    match method {
        DitherMethod::FloydSteinberg => 0 < x && x + 1 < width && y + 1 < height,
        DitherMethod::Atkinson => 0 < x && x + 2 < width && y + 2 < height,
        _ => true,
    }
}

/// Whether the shares go to pixels strictly after `idx` in row-major order and inside a
/// frame of `count` pixels, each with a positive numerator, in strictly increasing order of
/// target.
pub open spec fn shares_ahead(shares: Seq<(int, int)>, idx: int, count: int) -> bool {
    &&& forall|i: int| 0 <= i < shares.len() ==> idx < #[trigger] shares[i].0 < count && shares[i].1 > 0
    &&& forall|i: int, j: int| 0 <= i < j < shares.len() ==> #[trigger] shares[i].0 < #[trigger] shares[j].0
}

proof fn lemma_share_total_append(a: Seq<(int, int)>, b: Seq<(int, int)>)
    ensures
        share_total(a + b) == share_total(a) + share_total(b),
    decreases b.len(),
{
    if b.len() > 0 {
        assert((a + b).drop_last() =~= a + b.drop_last());
        lemma_share_total_append(a, b.drop_last());
    } else {
        assert(a + b =~= a);
    }
}

proof fn lemma_share_total_if(present: bool, index: int, numerator: int)
    ensures
        share_total(share_if(present, index, numerator)) == if present { numerator } else { 0 },
{
    reveal_with_fuel(share_total, 2);
    if present {
        assert(seq![(index, numerator)].drop_last() =~= Seq::<(int, int)>::empty());
    }
}

/// Appending a share whose target lies beyond all earlier ones keeps the shares ahead.
proof fn lemma_shares_ahead_append(s: Seq<(int, int)>, idx: int, count: int, present: bool, index: int, numerator: int)
    requires
        shares_ahead(s, idx, count),
        present ==> idx < index < count && numerator > 0,
        present ==> forall|i: int| 0 <= i < s.len() ==> #[trigger] s[i].0 < index,
    ensures
        shares_ahead(s + share_if(present, index, numerator), idx, count),
{
    let t = s + share_if(present, index, numerator);
    if present {
        assert forall|i: int, j: int| 0 <= i < j < t.len() implies #[trigger] t[i].0 < #[trigger] t[j].0 by {
            if j == s.len() {
                assert(t[i] == s[i]);
            }
        }
    } else {
        assert(t =~= s);
    }
}

/// Error diffusion is causal and stays in the frame: every share of pixel (`x`, `y`) goes to
/// a pixel later in row-major scan order, inside the frame, with a positive numerator, and no
/// pixel receives two shares of the same error (the targets strictly increase).
pub proof fn lemma_error_shares_ahead(method: DitherMethod, x: int, y: int, width: int, height: int)
    requires
        0 <= x < width,
        0 <= y < height,
    ensures
        shares_ahead(kernel_shares(method, x, y, width, height), y * width + x, width * height),
{
    let idx = y * width + x;
    let count = width * height;
    assert(y * width + width <= count) by (nonlinear_arith)
        requires
            0 <= x < width,
            0 <= y < height,
            count == width * height,
    ;
    assert(y + 1 < height ==> idx + width + 1 < count + width + 1 && (y + 1) * width + width <= count) by (nonlinear_arith)
        requires
            0 <= x < width,
            0 <= y < height,
            idx == y * width + x,
            count == width * height,
    ;
    assert(y + 2 < height ==> (y + 2) * width + width <= count) by (nonlinear_arith)
        requires
            0 <= y < height,
            0 < width,
            count == width * height,
    ;
    assert((y + 1) * width == y * width + width) by (nonlinear_arith);
    assert((y + 2) * width == y * width + width + width) by (nonlinear_arith);
    assert(idx + 1 <= y * width + width);
    let e = Seq::<(int, int)>::empty();
    assert(shares_ahead(e, idx, count));
    match method {
        DitherMethod::FloydSteinberg => {
            let s1 = e + share_if(x + 1 < width, idx + 1, 7);
            lemma_shares_ahead_append(e, idx, count, x + 1 < width, idx + 1, 7);
            let s2 = s1 + share_if(x > 0 && y + 1 < height, idx + width - 1, 3);
            lemma_shares_ahead_append(s1, idx, count, x > 0 && y + 1 < height, idx + width - 1, 3);
            let s3 = s2 + share_if(y + 1 < height, idx + width, 5);
            lemma_shares_ahead_append(s2, idx, count, y + 1 < height, idx + width, 5);
            lemma_shares_ahead_append(s3, idx, count, x + 1 < width && y + 1 < height, idx + width + 1, 1);
            assert(e + share_if(x + 1 < width, idx + 1, 7) =~= share_if(x + 1 < width, idx + 1, 7));
        },
        DitherMethod::Atkinson => {
            let s1 = e + share_if(x + 1 < width, idx + 1, 1);
            lemma_shares_ahead_append(e, idx, count, x + 1 < width, idx + 1, 1);
            let s2 = s1 + share_if(x + 2 < width, idx + 2, 1);
            lemma_shares_ahead_append(s1, idx, count, x + 2 < width, idx + 2, 1);
            let s3 = s2 + share_if(x > 0 && y + 1 < height, idx + width - 1, 1);
            lemma_shares_ahead_append(s2, idx, count, x > 0 && y + 1 < height, idx + width - 1, 1);
            let s4 = s3 + share_if(y + 1 < height, idx + width, 1);
            lemma_shares_ahead_append(s3, idx, count, y + 1 < height, idx + width, 1);
            let s5 = s4 + share_if(x + 1 < width && y + 1 < height, idx + width + 1, 1);
            lemma_shares_ahead_append(s4, idx, count, x + 1 < width && y + 1 < height, idx + width + 1, 1);
            lemma_shares_ahead_append(s5, idx, count, y + 2 < height, idx + width + width, 1);
            assert(e + share_if(x + 1 < width, idx + 1, 1) =~= share_if(x + 1 < width, idx + 1, 1));
        },
        _ => {},
    }
}

/// A kernel never hands out more error than its spread (sixteen sixteenths for
/// Floyd-Steinberg, six eighths for Atkinson, nothing for the other methods), and hands out
/// exactly that where all the neighbours it serves lie in the frame.
pub proof fn lemma_error_share_totals(method: DitherMethod, x: int, y: int, width: int, height: int)
    ensures
        0 <= share_total(kernel_shares(method, x, y, width, height)) <= kernel_spread(method),
        kernel_spread(method) <= kernel_denominator(method),
        all_neighbours_inside(method, x, y, width, height) ==> share_total(kernel_shares(method, x, y, width, height))
            == kernel_spread(method),
{
    let idx = y * width + x;
    match method {
        DitherMethod::FloydSteinberg => {
            let a = share_if(x + 1 < width, idx + 1, 7);
            let b = share_if(x > 0 && y + 1 < height, idx + width - 1, 3);
            let c = share_if(y + 1 < height, idx + width, 5);
            let d = share_if(x + 1 < width && y + 1 < height, idx + width + 1, 1);
            lemma_share_total_append(a + b + c, d);
            lemma_share_total_append(a + b, c);
            lemma_share_total_append(a, b);
            lemma_share_total_if(x + 1 < width, idx + 1, 7);
            lemma_share_total_if(x > 0 && y + 1 < height, idx + width - 1, 3);
            lemma_share_total_if(y + 1 < height, idx + width, 5);
            lemma_share_total_if(x + 1 < width && y + 1 < height, idx + width + 1, 1);
        },
        DitherMethod::Atkinson => {
            let a = share_if(x + 1 < width, idx + 1, 1);
            let b = share_if(x + 2 < width, idx + 2, 1);
            let c = share_if(x > 0 && y + 1 < height, idx + width - 1, 1);
            let d = share_if(y + 1 < height, idx + width, 1);
            let f = share_if(x + 1 < width && y + 1 < height, idx + width + 1, 1);
            let g = share_if(y + 2 < height, idx + width + width, 1);
            lemma_share_total_append(a + b + c + d + f, g);
            lemma_share_total_append(a + b + c + d, f);
            lemma_share_total_append(a + b + c, d);
            lemma_share_total_append(a + b, c);
            lemma_share_total_append(a, b);
            lemma_share_total_if(x + 1 < width, idx + 1, 1);
            lemma_share_total_if(x + 2 < width, idx + 2, 1);
            lemma_share_total_if(x > 0 && y + 1 < height, idx + width - 1, 1);
            lemma_share_total_if(y + 1 < height, idx + width, 1);
            lemma_share_total_if(x + 1 < width && y + 1 < height, idx + width + 1, 1);
            lemma_share_total_if(y + 2 < height, idx + width + width, 1);
        },
        _ => {},
    }
}


/// The 4x4 Bayer ordered-dithering matrix, levels 0..=15, at row `row` and column `col`.
pub open spec fn bayer_entry(row: int, col: int) -> int {
    if row == 0 {
        if col == 0 { 0 } else if col == 1 { 8 } else if col == 2 { 2 } else { 10 }
    } else if row == 1 {
        if col == 0 { 12 } else if col == 1 { 4 } else if col == 2 { 14 } else { 6 }
    } else if row == 2 {
        if col == 0 { 3 } else if col == 1 { 11 } else if col == 2 { 1 } else { 9 }
    } else {
        if col == 0 { 15 } else if col == 1 { 7 } else if col == 2 { 13 } else { 5 }
    }
}

/// The Bayer threshold level of pixel (`x`, `y`): the matrix tiled over the frame.
pub fn bayer_level(x: usize, y: usize) -> (level: u8)
    ensures
        level == bayer_entry((y % 4) as int, (x % 4) as int),
{
    let table: [u8; 16] = [0, 8, 2, 10, 12, 4, 14, 6, 3, 11, 1, 9, 15, 7, 13, 5];
    let row = y % 4;
    let col = x % 4;
    table[row * 4 + col]
}

/// The row and column at which `level` stands in the Bayer matrix.
pub open spec fn bayer_position(level: int) -> (int, int) {
    if level == 0 { (0, 0) } else if level == 1 { (2, 2) } else if level == 2 { (0, 2) } else if level == 3 { (2, 0) }
    else if level == 4 { (1, 1) } else if level == 5 { (3, 3) } else if level == 6 { (1, 3) } else if level == 7 { (3, 1) }
    else if level == 8 { (0, 1) } else if level == 9 { (2, 3) } else if level == 10 { (0, 3) } else if level == 11 { (2, 1) }
    else if level == 12 { (1, 0) } else if level == 13 { (3, 2) } else if level == 14 { (1, 2) } else { (3, 0) }
}

/// Each 4x4 tile of the Bayer matrix holds every threshold level 0..=15 exactly once.
pub proof fn lemma_bayer_tile_is_permutation()
    ensures
        forall|row: int, col: int| 0 <= row < 4 && 0 <= col < 4 ==> 0 <= #[trigger] bayer_entry(row, col) < 16,
        forall|level: int|
            0 <= level < 16 ==> 0 <= (#[trigger] bayer_position(level)).0 < 4 && 0 <= bayer_position(level).1 < 4
                && bayer_entry(bayer_position(level).0, bayer_position(level).1) == level,
        forall|r1: int, c1: int, r2: int, c2: int|
            0 <= r1 < 4 && 0 <= c1 < 4 && 0 <= r2 < 4 && 0 <= c2 < 4 && #[trigger] bayer_entry(r1, c1) == #[trigger] bayer_entry(r2, c2)
                ==> r1 == r2 && c1 == c2,
{
    assert forall|row: int, col: int| 0 <= row < 4 && 0 <= col < 4 implies bayer_position(bayer_entry(row, col)) == (row, col) by {}
}

} // verus!
verus! {

proof fn lemma_contains_in_concat(a: Seq<(int, int)>, b: Seq<(int, int)>, e: (int, int))
    requires
        a.contains(e) || b.contains(e),
    ensures
        (a + b).contains(e),
{
    if a.contains(e) {
        let i = choose|i: int| 0 <= i < a.len() && a[i] == e;
        assert((a + b)[i] == e);
    } else {
        let i = choose|i: int| 0 <= i < b.len() && b[i] == e;
        assert((a + b)[a.len() + i] == e);
    }
}

proof fn lemma_share_if_contains(present: bool, index: int, numerator: int)
    ensures
        present ==> share_if(present, index, numerator).contains((index, numerator)),
        share_if(present, index, numerator).len() == if present { 1int } else { 0int },
        forall|i: int| 0 <= i < share_if(present, index, numerator).len() ==> present
            && #[trigger] share_if(present, index, numerator)[i] == (index, numerator),
{
    if present {
        assert(share_if(present, index, numerator)[0] == (index, numerator));
    }
}

/// Floyd-Steinberg hands the error of pixel (`x`, `y`) of a row-major `width` x `height`
/// frame to exactly these neighbours, each once: 7/16 to the right neighbour whenever
/// it exists (in every row, the last one included), 3/16 below-left whenever there is a
/// row below and a column to the left (the right edge included), 5/16 straight below
/// whenever there is a row below, and 1/16 below-right whenever both exist.
pub proof fn lemma_floyd_steinberg_neighbours(x: int, y: int, width: int, height: int)
    requires
        0 <= x < width,
        0 <= y < height,
    ensures
        x + 1 < width ==> kernel_shares(DitherMethod::FloydSteinberg, x, y, width, height).contains((y * width + x + 1, 7int)),
        x > 0 && y + 1 < height ==> kernel_shares(DitherMethod::FloydSteinberg, x, y, width, height).contains(
            (y * width + x + width - 1, 3int),
        ),
        y + 1 < height ==> kernel_shares(DitherMethod::FloydSteinberg, x, y, width, height).contains((y * width + x + width, 5int)),
        x + 1 < width && y + 1 < height ==> kernel_shares(DitherMethod::FloydSteinberg, x, y, width, height).contains(
            (y * width + x + width + 1, 1int),
        ),
        kernel_shares(DitherMethod::FloydSteinberg, x, y, width, height).len() == (if x + 1 < width { 1int } else { 0int }) + (
        if x > 0 && y + 1 < height { 1int } else { 0int }) + (if y + 1 < height { 1int } else { 0int }) + (if x + 1 < width
            && y + 1 < height { 1int } else { 0int }),
        forall|i: int|
            0 <= i < kernel_shares(DitherMethod::FloydSteinberg, x, y, width, height).len() ==> {
                let s = #[trigger] kernel_shares(DitherMethod::FloydSteinberg, x, y, width, height)[i];
                ||| x + 1 < width && s == (y * width + x + 1, 7int)
                ||| x > 0 && y + 1 < height && s == (y * width + x + width - 1, 3int)
                ||| y + 1 < height && s == (y * width + x + width, 5int)
                ||| x + 1 < width && y + 1 < height && s == (y * width + x + width + 1, 1int)
            },
{
    let idx = y * width + x;
    let a = share_if(x + 1 < width, idx + 1, 7int);
    let b = share_if(x > 0 && y + 1 < height, idx + width - 1, 3int);
    let c = share_if(y + 1 < height, idx + width, 5int);
    let d = share_if(x + 1 < width && y + 1 < height, idx + width + 1, 1int);
    lemma_share_if_contains(x + 1 < width, idx + 1, 7int);
    lemma_share_if_contains(x > 0 && y + 1 < height, idx + width - 1, 3int);
    lemma_share_if_contains(y + 1 < height, idx + width, 5int);
    lemma_share_if_contains(x + 1 < width && y + 1 < height, idx + width + 1, 1int);
    assert(kernel_shares(DitherMethod::FloydSteinberg, x, y, width, height) == a + b + c + d);
    if x + 1 < width {
        lemma_contains_in_concat(a, b, (idx + 1, 7int));
        lemma_contains_in_concat(a + b, c, (idx + 1, 7int));
        lemma_contains_in_concat(a + b + c, d, (idx + 1, 7int));
    }
    if x > 0 && y + 1 < height {
        lemma_contains_in_concat(a, b, (idx + width - 1, 3int));
        lemma_contains_in_concat(a + b, c, (idx + width - 1, 3int));
        lemma_contains_in_concat(a + b + c, d, (idx + width - 1, 3int));
    }
    if y + 1 < height {
        lemma_contains_in_concat(a + b, c, (idx + width, 5int));
        lemma_contains_in_concat(a + b + c, d, (idx + width, 5int));
    }
    if x + 1 < width && y + 1 < height {
        lemma_contains_in_concat(a + b + c, d, (idx + width + 1, 1int));
    }
}

/// Atkinson hands 1/8 of the error of pixel (`x`, `y`) of a row-major `width` x `height`
/// frame to exactly these neighbours, each once: the right neighbour and the one after it
/// when they exist; below-left, below and below-right whenever there is a row below (and
/// the column exists), whether or not a second row below exists; and the pixel two rows
/// below whenever that row exists.
pub proof fn lemma_atkinson_neighbours(x: int, y: int, width: int, height: int)
    requires
        0 <= x < width,
        0 <= y < height,
    ensures
        x + 1 < width ==> kernel_shares(DitherMethod::Atkinson, x, y, width, height).contains((y * width + x + 1, 1int)),
        x + 2 < width ==> kernel_shares(DitherMethod::Atkinson, x, y, width, height).contains((y * width + x + 2, 1int)),
        x > 0 && y + 1 < height ==> kernel_shares(DitherMethod::Atkinson, x, y, width, height).contains(
            (y * width + x + width - 1, 1int),
        ),
        y + 1 < height ==> kernel_shares(DitherMethod::Atkinson, x, y, width, height).contains((y * width + x + width, 1int)),
        x + 1 < width && y + 1 < height ==> kernel_shares(DitherMethod::Atkinson, x, y, width, height).contains(
            (y * width + x + width + 1, 1int),
        ),
        y + 2 < height ==> kernel_shares(DitherMethod::Atkinson, x, y, width, height).contains(
            (y * width + x + width + width, 1int),
        ),
        kernel_shares(DitherMethod::Atkinson, x, y, width, height).len() == (if x + 1 < width { 1int } else { 0int }) + (
        if x + 2 < width { 1int } else { 0int }) + (if x > 0 && y + 1 < height { 1int } else { 0int }) + (if y + 1
            < height { 1int } else { 0int }) + (if x + 1 < width && y + 1 < height { 1int } else { 0int }) + (if y + 2
            < height { 1int } else { 0int }),
        forall|i: int|
            0 <= i < kernel_shares(DitherMethod::Atkinson, x, y, width, height).len() ==> {
                let s = #[trigger] kernel_shares(DitherMethod::Atkinson, x, y, width, height)[i];
                ||| x + 1 < width && s == (y * width + x + 1, 1int)
                ||| x + 2 < width && s == (y * width + x + 2, 1int)
                ||| x > 0 && y + 1 < height && s == (y * width + x + width - 1, 1int)
                ||| y + 1 < height && s == (y * width + x + width, 1int)
                ||| x + 1 < width && y + 1 < height && s == (y * width + x + width + 1, 1int)
                ||| y + 2 < height && s == (y * width + x + width + width, 1int)
            },
{
    let idx = y * width + x;
    let a = share_if(x + 1 < width, idx + 1, 1int);
    let b = share_if(x + 2 < width, idx + 2, 1int);
    let c = share_if(x > 0 && y + 1 < height, idx + width - 1, 1int);
    let d = share_if(y + 1 < height, idx + width, 1int);
    let f = share_if(x + 1 < width && y + 1 < height, idx + width + 1, 1int);
    let g = share_if(y + 2 < height, idx + width + width, 1int);
    lemma_share_if_contains(x + 1 < width, idx + 1, 1int);
    lemma_share_if_contains(x + 2 < width, idx + 2, 1int);
    lemma_share_if_contains(x > 0 && y + 1 < height, idx + width - 1, 1int);
    lemma_share_if_contains(y + 1 < height, idx + width, 1int);
    lemma_share_if_contains(x + 1 < width && y + 1 < height, idx + width + 1, 1int);
    lemma_share_if_contains(y + 2 < height, idx + width + width, 1int);
    assert(kernel_shares(DitherMethod::Atkinson, x, y, width, height) == a + b + c + d + f + g);
    if x + 1 < width {
        lemma_contains_in_concat(a, b, (idx + 1, 1int));
        lemma_contains_in_concat(a + b, c, (idx + 1, 1int));
        lemma_contains_in_concat(a + b + c, d, (idx + 1, 1int));
        lemma_contains_in_concat(a + b + c + d, f, (idx + 1, 1int));
        lemma_contains_in_concat(a + b + c + d + f, g, (idx + 1, 1int));
    }
    if x + 2 < width {
        lemma_contains_in_concat(a, b, (idx + 2, 1int));
        lemma_contains_in_concat(a + b, c, (idx + 2, 1int));
        lemma_contains_in_concat(a + b + c, d, (idx + 2, 1int));
        lemma_contains_in_concat(a + b + c + d, f, (idx + 2, 1int));
        lemma_contains_in_concat(a + b + c + d + f, g, (idx + 2, 1int));
    }
    if x > 0 && y + 1 < height {
        lemma_contains_in_concat(a + b, c, (idx + width - 1, 1int));
        lemma_contains_in_concat(a + b + c, d, (idx + width - 1, 1int));
        lemma_contains_in_concat(a + b + c + d, f, (idx + width - 1, 1int));
        lemma_contains_in_concat(a + b + c + d + f, g, (idx + width - 1, 1int));
    }
    if y + 1 < height {
        lemma_contains_in_concat(a + b + c, d, (idx + width, 1int));
        lemma_contains_in_concat(a + b + c + d, f, (idx + width, 1int));
        lemma_contains_in_concat(a + b + c + d + f, g, (idx + width, 1int));
    }
    if x + 1 < width && y + 1 < height {
        lemma_contains_in_concat(a + b + c + d, f, (idx + width + 1, 1int));
        lemma_contains_in_concat(a + b + c + d + f, g, (idx + width + 1, 1int));
    }
    if y + 2 < height {
        lemma_contains_in_concat(a + b + c + d + f, g, (idx + width + width, 1int));
    }
}

/// The ordered (Bayer) method and no dithering spread no error at all.
pub proof fn lemma_other_methods_spread_nothing(method: DitherMethod, x: int, y: int, width: int, height: int)
    requires
        method == DitherMethod::Bayer || method == DitherMethod::Off,
    ensures
        kernel_shares(method, x, y, width, height).len() == 0,
{
}

} // verus!
verus! {

/// The Bayer matrix is the standard recursive one: the level at row `row`, column `col`
/// is four times the 2x2 Bayer level [[0, 2], [3, 1]] at (`row % 2`, `col % 2`) plus the
/// 2x2 level at (`row / 2`, `col / 2`).
pub proof fn lemma_bayer_matrix_is_recursive(row: int, col: int)
    requires
        0 <= row < 4,
        0 <= col < 4,
    ensures
        bayer_entry(row, col) == 4 * (if row % 2 == 0 {
            if col % 2 == 0 { 0int } else { 2int }
        } else {
            if col % 2 == 0 { 3int } else { 1int }
        }) + (if row / 2 == 0 {
            if col / 2 == 0 { 0int } else { 2int }
        } else {
            if col / 2 == 0 { 3int } else { 1int }
        }),
{
}

} // verus!
