use termix::palette::{index_to_rgb, named_to_rgb, resolve_color, CellColor, NamedColor, Rgb};

#[test]
fn base_palette_entries() {
    assert_eq!(index_to_rgb(0), [30, 30, 46]);
    assert_eq!(index_to_rgb(1), [243, 139, 168]);
    assert_eq!(index_to_rgb(7), [205, 214, 244]);
    assert_eq!(index_to_rgb(8), [88, 91, 112]);
    assert_eq!(index_to_rgb(9), [243, 139, 168]);
    assert_eq!(index_to_rgb(15), [205, 214, 244]);
}

#[test]
fn colour_cube_entries() {
    assert_eq!(index_to_rgb(16), [0, 0, 0]);
    assert_eq!(index_to_rgb(21), [0, 0, 255]);
    assert_eq!(index_to_rgb(46), [0, 255, 0]);
    assert_eq!(index_to_rgb(196), [255, 0, 0]);
    assert_eq!(index_to_rgb(231), [255, 255, 255]);
    assert_eq!(index_to_rgb(110), [102, 153, 204]);
}

#[test]
fn colour_cube_decomposes() {
    for idx in 16u8..=231 {
        let [r, g, b] = index_to_rgb(idx);
        assert_eq!(r % 51, 0);
        assert_eq!(g % 51, 0);
        assert_eq!(b % 51, 0);
        assert_eq!(idx as u32, 16 + 36 * (r as u32 / 51) + 6 * (g as u32 / 51) + b as u32 / 51);
    }
}

#[test]
fn grey_ramp_entries() {
    assert_eq!(index_to_rgb(232), [8, 8, 8]);
    assert_eq!(index_to_rgb(244), [128, 128, 128]);
    assert_eq!(index_to_rgb(255), [238, 238, 238]);
    let mut prev = 0u8;
    for idx in 232u8..=255 {
        let [r, g, b] = index_to_rgb(idx);
        assert_eq!(r, g);
        assert_eq!(g, b);
        assert!(r > prev);
        prev = r;
    }
}

#[test]
fn named_colours() {
    assert_eq!(named_to_rgb(NamedColor::Red, true), [243, 139, 168]);
    assert_eq!(named_to_rgb(NamedColor::BrightBlack, false), [88, 91, 112]);
    assert_eq!(named_to_rgb(NamedColor::Foreground, true), [205, 214, 244]);
    assert_eq!(named_to_rgb(NamedColor::Foreground, false), [30, 30, 46]);
    assert_eq!(named_to_rgb(NamedColor::DimForeground, true), [205, 214, 244]);
    assert_eq!(named_to_rgb(NamedColor::Background, true), [30, 30, 46]);
    assert_eq!(named_to_rgb(NamedColor::Background, false), [30, 30, 46]);
    assert_eq!(named_to_rgb(NamedColor::Cursor, true), [205, 214, 244]);
    assert_eq!(named_to_rgb(NamedColor::DimRed, false), [30, 30, 46]);
}

#[test]
fn named_matches_indexed() {
    let names = [
        NamedColor::Black,
        NamedColor::Red,
        NamedColor::Green,
        NamedColor::Yellow,
        NamedColor::Blue,
        NamedColor::Magenta,
        NamedColor::Cyan,
        NamedColor::White,
        NamedColor::BrightBlack,
        NamedColor::BrightRed,
        NamedColor::BrightGreen,
        NamedColor::BrightYellow,
        NamedColor::BrightBlue,
        NamedColor::BrightMagenta,
        NamedColor::BrightCyan,
        NamedColor::BrightWhite,
    ];
    for (i, n) in names.iter().enumerate() {
        for fg in [true, false] {
            assert_eq!(
                resolve_color(&CellColor::Named(*n), fg),
                resolve_color(&CellColor::Indexed(i as u8), fg)
            );
        }
    }
}

#[test]
fn bright_equals_normal() {
    for i in 1u8..=7 {
        assert_eq!(index_to_rgb(i), index_to_rgb(i + 8));
    }
}

#[test]
fn resolve_spec_and_indexed() {
    let c = CellColor::Spec(Rgb { r: 1, g: 2, b: 3 });
    assert_eq!(resolve_color(&c, true), [1, 2, 3]);
    assert_eq!(resolve_color(&c, false), [1, 2, 3]);
    assert_eq!(resolve_color(&CellColor::Indexed(232), false), [8, 8, 8]);
    assert_eq!(resolve_color(&CellColor::Named(NamedColor::Foreground), false), [30, 30, 46]);
}
