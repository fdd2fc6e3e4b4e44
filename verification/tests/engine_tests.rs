use px2asc::common::settings::{ArtStyle as GridArtStyle, ColorMode as GridColorMode};
use px2asc::engine::braille::render_braille_dots;
use px2asc::engine::classic::{charset_glyphs, render_classic_cells};
use px2asc::engine::dither::{bayer_level, dithering_applies, error_denominator, error_shares, ErrorShare};
use px2asc::engine::frame::rgb_from_rgba;
use px2asc::engine::pipeline::expected_rgba_len;
use px2asc::engine::{ColoredChar, RenderOutput};
use px2asc::settings::{ArtStyle, ColorMode, DitherMethod};

fn dots_above(luma: &[f32], threshold: f32) -> Vec<bool> {
    luma.iter().map(|&v| v > threshold).collect()
}

fn pairs(shares: &[ErrorShare]) -> Vec<(usize, u32)> {
    shares.iter().map(|s| (s.index, s.numerator)).collect()
}

// ── Braille mapping ───────

/// Pixel layout (2x4, threshold = 128):
///   (0,0)=255  (1,0)=0
///   (0,1)=0    (1,1)=0
///   (0,2)=0    (1,2)=0
///   (0,3)=0    (1,3)=255
/// Bits fired: dot1 (weight 1) + dot8 (weight 128) = 129, U+2881.
#[test]
fn test_braille_dot_encoding() {
    let luma_data = vec![255.0, 0.0, 0.0, 0.0, 0.0, 0.0, 0.0, 255.0];
    let result = render_braille_dots(&dots_above(&luma_data, 128.0), 2, 4);
    assert_eq!(result.trim(), "\u{2881}", "expected ⢁ (U+2881)");
}

#[test]
fn test_braille_all_on_is_full_block() {
    let luma_data = vec![255.0; 8];
    let result = render_braille_dots(&dots_above(&luma_data, 0.0), 2, 4);
    // All 8 weights: 1+2+4+8+16+32+64+128 = 255 -> U+28FF
    assert_eq!(result.trim(), "\u{28FF}", "expected ⣿ (U+28FF)");
}

#[test]
fn braille_each_dot_has_its_own_bit() {
    // Row-major 2x4 cell; pixel (col, row) -> expected code point offset.
    let weights = [(0, 0, 1u32), (0, 1, 2), (0, 2, 4), (0, 3, 64), (1, 0, 8), (1, 1, 16), (1, 2, 32), (1, 3, 128)];
    for &(col, row, weight) in weights.iter() {
        let mut dots = vec![false; 8];
        dots[row * 2 + col] = true;
        let text = render_braille_dots(&dots, 2, 4);
        let expected: String = [char::from_u32(0x2800 + weight).unwrap(), '\n'].iter().collect();
        assert_eq!(text, expected);
    }
}

#[test]
fn braille_all_off_is_blank_cell() {
    let text = render_braille_dots(&vec![false; 8], 2, 4);
    assert_eq!(text, "\u{2800}\n");
}

#[test]
fn braille_layout_is_one_line_per_band() {
    // 4 wide, 8 high: two lines of two cells each.
    let mut dots = vec![false; 32];
    dots[0] = true; // cell (0, 0), dot 1
    dots[3] = true; // cell (1, 0), dot 4
    dots[4 * 7 + 3] = true; // cell (1, 1), dot 8
    let text = render_braille_dots(&dots, 4, 8);
    assert_eq!(text, "\u{2801}\u{2808}\n\u{2800}\u{2880}\n");
    assert_eq!(text.chars().count(), (8 / 4) * (4 / 2 + 1));
}

#[test]
fn braille_drops_partial_cells() {
    // 3 wide, 5 high: one whole cell; the third column and fifth row are dropped.
    let dots = vec![true; 15];
    let text = render_braille_dots(&dots, 3, 5);
    assert_eq!(text, "\u{28FF}\n");
}

#[test]
fn braille_empty_frame_is_empty_text() {
    assert_eq!(render_braille_dots(&Vec::new(), 0, 0), "");
    assert_eq!(render_braille_dots(&vec![true; 3], 1, 3), "");
}

// ── Classic glyphs ───────

#[test]
fn charset_glyphs_are_the_characters_in_order() {
    let glyphs = charset_glyphs(" .:-=+*#%@");
    assert_eq!(glyphs, vec![' ', '.', ':', '-', '=', '+', '*', '#', '%', '@']);
    assert_eq!(charset_glyphs("äß→"), vec!['ä', 'ß', '→']);
    assert!(charset_glyphs("").is_empty());
}

#[test]
fn classic_cells_pick_ramp_glyph_and_colour() {
    let levels = vec![0, 9, 5];
    let colors = vec![(0, 0, 0), (255, 255, 255), (127, 127, 127)];
    let cells = render_classic_cells(" .:-=+*#%@", &levels, &colors);
    assert_eq!(
        cells,
        vec![
            ColoredChar::new(' ', 0, 0, 0),
            ColoredChar::new('@', 255, 255, 255),
            ColoredChar::new('+', 127, 127, 127),
        ]
    );
}

#[test]
fn colored_char_new_keeps_fields() {
    let c = ColoredChar::new('#', 1, 2, 3);
    assert_eq!(c.glyph, '#');
    assert_eq!((c.r, c.g, c.b), (1, 2, 3));
}

#[test]
fn render_output_carries_its_kind() {
    let out = RenderOutput::Braille("\u{2800}\n".to_string());
    match out {
        RenderOutput::Braille(s) => assert_eq!(s, "\u{2800}\n"),
        RenderOutput::Classic(_) => panic!("Expected Braille output"),
    }
}

// ── Frame ingestion ───────

#[test]
fn rgb_drops_alpha_and_partial_pixels() {
    let rgba = [1u8, 2, 3, 4, 5, 6, 7, 8, 9, 10];
    assert_eq!(rgb_from_rgba(&rgba), vec![1, 2, 3, 5, 6, 7]);
    assert!(rgb_from_rgba(&[]).is_empty());
    assert!(rgb_from_rgba(&[1, 2, 3]).is_empty());
}

#[test]
fn rgba_length_check() {
    assert_eq!(expected_rgba_len(3, 2), Some(24));
    assert_eq!(expected_rgba_len(0, 7), Some(0));
    assert_eq!(expected_rgba_len(usize::MAX, 2), None);
    assert_eq!(expected_rgba_len(usize::MAX / 2, 2), None);
}

// ── Dithering kernels ───────

#[test]
fn floyd_steinberg_corner_and_interior() {
    assert_eq!(pairs(&error_shares(DitherMethod::FloydSteinberg, 0, 0, 3, 3)), vec![(1, 7), (3, 5), (4, 1)]);
    let interior = error_shares(DitherMethod::FloydSteinberg, 1, 1, 3, 3);
    assert_eq!(pairs(&interior), vec![(5, 7), (6, 3), (7, 5), (8, 1)]);
    assert_eq!(interior.iter().map(|s| s.numerator).sum::<u32>(), 16);
    // Last pixel: nothing to spread to.
    assert!(error_shares(DitherMethod::FloydSteinberg, 2, 2, 3, 3).is_empty());
}

#[test]
fn atkinson_spreads_six_eighths() {
    assert_eq!(
        pairs(&error_shares(DitherMethod::Atkinson, 0, 0, 4, 4)),
        vec![(1, 1), (2, 1), (4, 1), (5, 1), (8, 1)]
    );
    let interior = error_shares(DitherMethod::Atkinson, 1, 1, 5, 5);
    assert_eq!(pairs(&interior), vec![(7, 1), (8, 1), (10, 1), (11, 1), (12, 1), (16, 1)]);
    assert_eq!(interior.iter().map(|s| s.numerator).sum::<u32>(), 6);
    assert_eq!(error_denominator(DitherMethod::Atkinson), 8);
    assert_eq!(error_denominator(DitherMethod::FloydSteinberg), 16);
}

#[test]
fn error_shares_stay_ahead_and_inside() {
    for method in [DitherMethod::FloydSteinberg, DitherMethod::Atkinson] {
        for y in 0..5 {
            for x in 0..4 {
                let idx = y * 4 + x;
                let shares = error_shares(method, x, y, 4, 5);
                for w in shares.windows(2) {
                    assert!(w[0].index < w[1].index);
                }
                for s in shares.iter() {
                    assert!(idx < s.index && s.index < 20 && s.numerator > 0);
                }
            }
        }
    }
}

#[test]
fn ordered_and_no_dithering_spread_nothing() {
    assert!(error_shares(DitherMethod::Bayer, 1, 1, 3, 3).is_empty());
    assert!(error_shares(DitherMethod::Off, 1, 1, 3, 3).is_empty());
}

#[test]
fn dithering_applies_only_with_a_method_and_two_shades() {
    assert!(!dithering_applies(DitherMethod::Off, 10));
    assert!(!dithering_applies(DitherMethod::FloydSteinberg, 1));
    assert!(!dithering_applies(DitherMethod::Bayer, 0));
    assert!(dithering_applies(DitherMethod::FloydSteinberg, 2));
    assert!(dithering_applies(DitherMethod::Atkinson, 10));
    assert!(dithering_applies(DitherMethod::Bayer, 10));
}

#[test]
fn bayer_matrix_tiles_the_frame() {
    let expected = [[0u8, 8, 2, 10], [12, 4, 14, 6], [3, 11, 1, 9], [15, 7, 13, 5]];
    let mut seen = [false; 16];
    for y in 0..4 {
        for x in 0..4 {
            let level = bayer_level(x, y);
            assert_eq!(level, expected[y][x]);
            assert_eq!(bayer_level(x + 4, y + 8), level);
            assert!(!seen[level as usize]);
            seen[level as usize] = true;
        }
    }
    assert!(seen.iter().all(|&s| s));
}

// ── Settings ───────

#[test]
fn settings_variants_are_distinct() {
    assert_ne!(ArtStyle::Classic, ArtStyle::Braille);
    assert_ne!(ColorMode::Grayscale, ColorMode::FullColor);
    assert_ne!(ColorMode::MatrixGreen, ColorMode::AmberMonitor);
    assert_ne!(DitherMethod::Off, DitherMethod::Bayer);
    assert_ne!(GridColorMode::Grayscale, GridColorMode::Color);
    assert_eq!(GridArtStyle::Classic, GridArtStyle::Classic);
}
