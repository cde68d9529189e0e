use termix::palette::{CellColor, NamedColor, Rgb};
use termix::raster::{blend_channel, blend_glyph, fill_pixels, paint_rect, render_grid, Glyph, GridCell};

fn pixel(buf: &[u8], sw: usize, x: usize, y: usize) -> [u8; 4] {
    let o = (y * sw + x) * 4;
    [buf[o], buf[o + 1], buf[o + 2], buf[o + 3]]
}

#[test]
fn fill_leaves_partial_pixel() {
    let mut buf = vec![7u8; 10];
    fill_pixels(&mut buf, [1, 2, 3, 4]);
    assert_eq!(buf, vec![1, 2, 3, 4, 1, 2, 3, 4, 7, 7]);
}

#[test]
fn blend_values() {
    assert_eq!(blend_channel(200, 10, 255), 200);
    assert_eq!(blend_channel(200, 10, 0), 10);
    assert_eq!(blend_channel(255, 0, 128), 128);
    assert_eq!(blend_channel(100, 200, 51), 180);
    for a in 0..=255u8 {
        let v = blend_channel(40, 220, a);
        assert!(40 <= v && v <= 220);
    }
}

#[test]
fn paint_rect_inside() {
    let mut buf = vec![0u8; 4 * 4 * 3];
    paint_rect(&mut buf, 4, 1, 1, 2, 1, [10, 20, 30]);
    for y in 0..3 {
        for x in 0..4 {
            let expected = if y == 1 && (x == 1 || x == 2) { [30, 20, 10, 255] } else { [0, 0, 0, 0] };
            assert_eq!(pixel(&buf, 4, x, y), expected);
        }
    }
}

#[test]
fn paint_rect_clipped_right_and_bottom() {
    let mut buf = vec![0u8; 4 * 4 * 2];
    paint_rect(&mut buf, 4, 3, 1, 3, 5, [1, 2, 3]);
    for y in 0..2 {
        for x in 0..4 {
            let expected = if y == 1 && x == 3 { [3, 2, 1, 255] } else { [0, 0, 0, 0] };
            assert_eq!(pixel(&buf, 4, x, y), expected);
        }
    }
}

#[test]
fn paint_rect_twice_same_as_once() {
    let mut a = (0..48u8).collect::<Vec<u8>>();
    let mut b = a.clone();
    paint_rect(&mut a, 4, 1, 0, 2, 2, [9, 8, 7]);
    paint_rect(&mut b, 4, 1, 0, 2, 2, [9, 8, 7]);
    paint_rect(&mut b, 4, 1, 0, 2, 2, [9, 8, 7]);
    assert_eq!(a, b);
}

#[test]
fn glyph_placement() {
    // 2x2 glyph, opaque top-left sample, half coverage bottom-right.
    let g = Glyph { width: 2, height: 2, xmin: 1, ymin: 0, bitmap: vec![255, 0, 0, 128] };
    let mut buf = vec![0u8; 4 * 4 * 4];
    // Cell at (0, 0), baseline row 3: sample row 0 lands on row 3 - 2 = 1.
    blend_glyph(&mut buf, 4, 0, 0, 3, &g, [200, 100, 50]);
    assert_eq!(pixel(&buf, 4, 1, 1), [50, 100, 200, 255]);
    assert_eq!(pixel(&buf, 4, 2, 2), [25, 50, 100, 255]);
    assert_eq!(pixel(&buf, 4, 2, 1), [0, 0, 0, 0]);
    assert_eq!(pixel(&buf, 4, 1, 2), [0, 0, 0, 0]);
    let touched = buf.iter().filter(|b| **b != 0).count();
    assert_eq!(touched, 8);
}

#[test]
fn glyph_above_top_and_right_edge_is_clipped() {
    let g = Glyph { width: 3, height: 3, xmin: 0, ymin: 0, bitmap: vec![255; 9] };
    let mut buf = vec![0u8; 4 * 2 * 2];
    // Sample row 0 lands on row 1 - 3 = -2, row 2 on row 0; column 2 is off the 2-pixel surface.
    blend_glyph(&mut buf, 2, 0, 0, 1, &g, [255, 255, 255]);
    assert_eq!(pixel(&buf, 2, 0, 0), [255, 255, 255, 255]);
    assert_eq!(pixel(&buf, 2, 1, 0), [255, 255, 255, 255]);
    assert_eq!(pixel(&buf, 2, 0, 1), [0, 0, 0, 0]);
    assert_eq!(pixel(&buf, 2, 1, 1), [0, 0, 0, 0]);
}

#[test]
fn blank_glyph_changes_nothing() {
    let g = Glyph { width: 2, height: 2, xmin: 0, ymin: 0, bitmap: vec![0; 4] };
    let mut buf = (0..64u8).collect::<Vec<u8>>();
    let before = buf.clone();
    blend_glyph(&mut buf, 4, 1, 1, 2, &g, [1, 2, 3]);
    assert_eq!(buf, before);
}

fn sample_grid() -> (Vec<GridCell>, Vec<Option<Glyph>>) {
    let cells = vec![
        GridCell {
            c: 'x',
            fg: CellColor::Named(NamedColor::Foreground),
            bg: CellColor::Spec(Rgb { r: 1, g: 2, b: 3 }),
        },
        GridCell { c: ' ', fg: CellColor::Indexed(1), bg: CellColor::Named(NamedColor::Background) },
    ];
    let glyphs = vec![
        Some(Glyph { width: 1, height: 1, xmin: 0, ymin: 0, bitmap: vec![255] }),
        Some(Glyph { width: 1, height: 1, xmin: 0, ymin: 0, bitmap: vec![255] }),
    ];
    (cells, glyphs)
}

#[test]
fn render_small_grid() {
    let (cells, glyphs) = sample_grid();
    // Surface 5 pixels wide, 3 rows; two cells of 2x2 pixels in one row.
    let mut buf = vec![0u8; 5 * 3 * 4 + 2];
    render_grid(&mut buf, 5, 2, 1, &cells, &glyphs, 2, 2);
    // Baseline row of a 2-pixel cell is 2 - 0 = 2, lifted by 1: glyph on row 1.
    assert_eq!(pixel(&buf, 5, 0, 0), [3, 2, 1, 255]);
    assert_eq!(pixel(&buf, 5, 1, 0), [3, 2, 1, 255]);
    assert_eq!(pixel(&buf, 5, 0, 1), [244, 214, 205, 255]);
    assert_eq!(pixel(&buf, 5, 1, 1), [3, 2, 1, 255]);
    // The blank cell shows its background only.
    for (x, y) in [(2, 0), (3, 0), (2, 1), (3, 1)] {
        assert_eq!(pixel(&buf, 5, x, y), [46, 30, 30, 255]);
    }
    // Uncovered pixels keep the cleared background; the partial pixel is untouched.
    assert_eq!(pixel(&buf, 5, 4, 0), [46, 30, 30, 255]);
    assert_eq!(pixel(&buf, 5, 0, 2), [46, 30, 30, 255]);
    assert_eq!(&buf[60..], &[0, 0]);
}

#[test]
fn render_is_opaque_and_independent_of_old_contents() {
    let (cells, glyphs) = sample_grid();
    let mut a = vec![0u8; 5 * 3 * 4];
    let mut b = (0..60u8).map(|v| v.wrapping_mul(37)).collect::<Vec<u8>>();
    render_grid(&mut a, 5, 2, 1, &cells, &glyphs, 2, 2);
    render_grid(&mut b, 5, 2, 1, &cells, &glyphs, 2, 2);
    assert_eq!(a, b);
    for p in 0..15 {
        assert_eq!(a[4 * p + 3], 255);
    }
}
