use zoa::renderer::pixels::{
    bayer_rank, braille, cell_glyph, pack_mask, HALF_BLOCKS, OCTANTS, QUADRANTS, SEXTANTS,
};
use zoa::renderer::rasterizer::grid_index;
use zoa::{CharStyle, ColorPalette, PixelMode, RenderMode};

#[test]
fn braille_bits_match_unicode() {
    assert_eq!(braille(0), '\u{2800}');
    assert_eq!(braille(0b1), '⠁'); // top-left = dot 1
    assert_eq!(braille(0b10), '⠈'); // top-right = dot 4
    assert_eq!(braille(0b0100_0000), '⡀'); // bottom-left = dot 7
    assert_eq!(braille(0xFF), '⣿');
}

#[test]
fn glyph_tables_are_row_major() {
    assert_eq!(QUADRANTS[0b0011], '▀');
    assert_eq!(QUADRANTS[0b0101], '▌');
    assert_eq!(SEXTANTS[0b010101], '▌');
    assert_eq!(OCTANTS[0b1111_0000], '▄');
}

#[test]
fn braille_ignores_bits_above_the_cell() {
    assert_eq!(braille(0x1FF), braille(0xFF));
    assert_eq!(braille(0b1000_0000), '⢀'); // bottom-right = dot 8
    assert_eq!(braille(0b0000_0100), '⠂'); // second row left = dot 2
}

#[test]
fn half_blocks_by_top_and_bottom() {
    assert_eq!(HALF_BLOCKS, [' ', '▀', '▄', '█']);
    assert_eq!(cell_glyph(PixelMode::HalfBlock, &[true, false]), Some('▀'));
    assert_eq!(cell_glyph(PixelMode::HalfBlock, &[false, true]), Some('▄'));
    assert_eq!(cell_glyph(PixelMode::HalfBlock, &[true, true]), Some('█'));
}

#[test]
fn cell_glyphs_follow_flags() {
    assert_eq!(pack_mask(&[true, false, true, false]), 0b0101);
    assert_eq!(cell_glyph(PixelMode::Quadrant, &[true, false, true, false]), Some('▌'));
    assert_eq!(
        cell_glyph(PixelMode::Sextant, &[true, false, true, false, true, false]),
        Some('▌')
    );
    let lower_half = [false, false, false, false, true, true, true, true];
    assert_eq!(cell_glyph(PixelMode::Octant, &lower_half), Some('▄'));
    assert_eq!(cell_glyph(PixelMode::Braille, &[false; 8]), None);
    assert_eq!(cell_glyph(PixelMode::Braille, &[true; 8]), Some('⣿'));
}

#[test]
fn bayer_ranks_cover_a_block_once() {
    let mut seen = [false; 16];
    for y in 0..4u16 {
        for x in 0..4u16 {
            let r = bayer_rank(x, y) as usize;
            assert!(r < 16);
            assert!(!seen[r]);
            seen[r] = true;
        }
    }
    assert_eq!(bayer_rank(0, 0), 0);
    assert_eq!(bayer_rank(1, 0), 8);
    assert_eq!(bayer_rank(4, 4), bayer_rank(0, 0));
}

#[test]
fn pixel_modes_cycle_through_all() {
    let mut m = PixelMode::Cell;
    let mut names = Vec::new();
    for _ in 0..6 {
        names.push(m.name());
        m = m.next();
    }
    assert_eq!(m, PixelMode::Cell);
    assert_eq!(PixelMode::Sextant.subdivisions(), (2, 3));
    assert_eq!(PixelMode::Braille.subdivisions(), (2, 4));
    names.sort();
    names.dedup();
    assert_eq!(names.len(), 6);
}

#[test]
fn styles_and_palettes_cycle() {
    let mut s = CharStyle::default();
    for _ in 0..8 {
        s = s.next();
    }
    assert_eq!(s, CharStyle::default());
    let mut p = ColorPalette::default();
    for _ in 0..6 {
        p = p.next();
    }
    assert_eq!(p, ColorPalette::Cyan);
    assert_eq!(RenderMode::Solid.next(), RenderMode::Wireframe);
    assert_eq!(RenderMode::Wireframe.next(), RenderMode::Solid);
    assert_eq!(CharStyle::Ascii.chars().first(), Some(&' '));
}

#[test]
fn grid_indices_are_row_major() {
    assert_eq!(grid_index(4, 3, 0, 0), Some(0));
    assert_eq!(grid_index(4, 3, 3, 2), Some(11));
    assert_eq!(grid_index(4, 3, 4, 0), None);
    assert_eq!(grid_index(4, 3, 0, 3), None);
    assert_eq!(grid_index(u16::MAX, u16::MAX, u16::MAX - 1, u16::MAX - 1), Some(65535 * 65535 - 1));
}
