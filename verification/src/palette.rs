//! The Catppuccin Mocha palette and the resolution of terminal colours to RGB.

use vstd::prelude::*;

verus! {

/// Packs three channel values the way the colour functions return them.
pub open spec fn rgb_of(c: [u8; 3]) -> (u8, u8, u8) {
    (c[0], c[1], c[2])
}

/// The sixteen base colours, indexed 0..16 (values outside that range map to black).
pub open spec fn palette_rgb(i: int) -> (u8, u8, u8) {
    if i == 1 || i == 9 {
        (243, 139, 168)
    } else if i == 2 || i == 10 {
        (166, 227, 161)
    } else if i == 3 || i == 11 {
        (249, 226, 175)
    } else if i == 4 || i == 12 {
        (137, 180, 250)
    } else if i == 5 || i == 13 {
        (245, 194, 231)
    } else if i == 6 || i == 14 {
        (148, 226, 213)
    } else if i == 7 || i == 15 {
        (205, 214, 244)
    } else if i == 8 {
        (88, 91, 112)
    } else {
        (30, 30, 46)
    }
}

/// Colour of an index in the 256-colour table: the base palette, the
/// 6x6x6 cube (16..=231) and the greyscale ramp (232..=255).
pub open spec fn spec_index_to_rgb(idx: u8) -> (u8, u8, u8) {
    if idx < 16 {
        palette_rgb(idx as int)
    } else if idx <= 231 {
        let i = idx - 16;
        (((i / 36) * 51) as u8, (((i / 6) % 6) * 51) as u8, ((i % 6) * 51) as u8)
    } else {
        let v = 8 + (idx - 232) * 10;
        (v as u8, v as u8, v as u8)
    }
}

fn palette_entry(i: u8) -> (c: [u8; 3])
    requires
        i < 16,
    ensures
        rgb_of(c) == palette_rgb(i as int),
{
    if i == 1 || i == 9 {
        [243, 139, 168]
    } else if i == 2 || i == 10 {
        [166, 227, 161]
    } else if i == 3 || i == 11 {
        [249, 226, 175]
    } else if i == 4 || i == 12 {
        [137, 180, 250]
    } else if i == 5 || i == 13 {
        [245, 194, 231]
    } else if i == 6 || i == 14 {
        [148, 226, 213]
    } else if i == 7 || i == 15 {
        [205, 214, 244]
    } else if i == 8 {
        [88, 91, 112]
    } else {
        [30, 30, 46]
    }
}

/// Maps a 256-colour index to RGB.
pub fn index_to_rgb(idx: u8) -> (c: [u8; 3])
    ensures
        rgb_of(c) == spec_index_to_rgb(idx),
{
    if idx < 16 {
        return palette_entry(idx);
    }
    if idx <= 231 {
        let i = idx - 16;
        let b = (i % 6) * 51;
        let g = ((i / 6) % 6) * 51;
        let r = (i / 36) * 51;
        return [r, g, b];
    }
    let v = 8 + (idx - 232) * 10;
    [v, v, v]
}


/// Named terminal colours, with the same variants as the terminal emulator's.
#[derive(Clone, Copy, Debug, PartialEq, Eq, Structural)]
pub enum NamedColor {
    Black,
    Red,
    Green,
    Yellow,
    Blue,
    Magenta,
    Cyan,
    White,
    BrightBlack,
    BrightRed,
    BrightGreen,
    BrightYellow,
    BrightBlue,
    BrightMagenta,
    BrightCyan,
    BrightWhite,
    Foreground,
    Background,
    Cursor,
    DimBlack,
    DimRed,
    DimGreen,
    DimYellow,
    DimBlue,
    DimMagenta,
    DimCyan,
    DimWhite,
    BrightForeground,
    DimForeground,
}

/// A 24-bit colour given directly by its channels.
#[derive(Clone, Copy, Debug, PartialEq, Eq, Structural)]
pub struct Rgb {
    pub r: u8,
    pub g: u8,
    pub b: u8,
}

/// The colour of a grid cell as the terminal reports it.
#[derive(Clone, Copy, Debug, PartialEq, Eq, Structural)]
pub enum CellColor {
    Named(NamedColor),
    Spec(Rgb),
    Indexed(u8),
}

/// Default background ("base").
pub open spec fn bg_default() -> (u8, u8, u8) {
    (30, 30, 46)
}

/// Default foreground ("text").
pub open spec fn fg_default() -> (u8, u8, u8) {
    (205, 214, 244)
}

/// Position of a named colour in the base palette, if it has one.
pub open spec fn palette_slot(named: NamedColor) -> Option<int> {
    match named {
        NamedColor::Black => Some(0),
        NamedColor::Red => Some(1),
        NamedColor::Green => Some(2),
        NamedColor::Yellow => Some(3),
        NamedColor::Blue => Some(4),
        NamedColor::Magenta => Some(5),
        NamedColor::Cyan => Some(6),
        NamedColor::White => Some(7),
        NamedColor::BrightBlack => Some(8),
        NamedColor::BrightRed => Some(9),
        NamedColor::BrightGreen => Some(10),
        NamedColor::BrightYellow => Some(11),
        NamedColor::BrightBlue => Some(12),
        NamedColor::BrightMagenta => Some(13),
        NamedColor::BrightCyan => Some(14),
        NamedColor::BrightWhite => Some(15),
        _ => None,
    }
}

/// RGB of a named colour: palette colours by their slot, the explicit
/// background as the default background, and every other name as the
/// default foreground when drawing text or the default background otherwise.
pub open spec fn spec_named_to_rgb(named: NamedColor, is_fg: bool) -> (u8, u8, u8) {
    match palette_slot(named) {
        Some(i) => palette_rgb(i),
        None => if named == NamedColor::Background || !is_fg {
            bg_default()
        } else {
            fg_default()
        },
    }
}

/// RGB of a cell colour.
pub open spec fn spec_resolve_color(color: CellColor, is_fg: bool) -> (u8, u8, u8) {
    match color {
        CellColor::Named(named) => spec_named_to_rgb(named, is_fg),
        CellColor::Spec(rgb) => (rgb.r, rgb.g, rgb.b),
        CellColor::Indexed(idx) => spec_index_to_rgb(idx),
    }
}

const BG_DEFAULT: [u8; 3] = [30, 30, 46];

const FG_DEFAULT: [u8; 3] = [205, 214, 244];

/// Maps a named colour to RGB; `is_fg` chooses the default for the
/// foreground-like names.
pub fn named_to_rgb(named: NamedColor, is_fg: bool) -> (c: [u8; 3])
    ensures
        rgb_of(c) == spec_named_to_rgb(named, is_fg),
{
    match named {
        NamedColor::Black => palette_entry(0),
        NamedColor::Red => palette_entry(1),
        NamedColor::Green => palette_entry(2),
        NamedColor::Yellow => palette_entry(3),
        NamedColor::Blue => palette_entry(4),
        NamedColor::Magenta => palette_entry(5),
        NamedColor::Cyan => palette_entry(6),
        NamedColor::White => palette_entry(7),
        NamedColor::BrightBlack => palette_entry(8),
        NamedColor::BrightRed => palette_entry(9),
        NamedColor::BrightGreen => palette_entry(10),
        NamedColor::BrightYellow => palette_entry(11),
        NamedColor::BrightBlue => palette_entry(12),
        NamedColor::BrightMagenta => palette_entry(13),
        NamedColor::BrightCyan => palette_entry(14),
        NamedColor::BrightWhite => palette_entry(15),
        NamedColor::Foreground | NamedColor::BrightForeground | NamedColor::DimForeground => {
            if is_fg {
                FG_DEFAULT
            } else {
                BG_DEFAULT
            }
        },
        NamedColor::Background => BG_DEFAULT,
        _ => {
            if is_fg {
                FG_DEFAULT
            } else {
                BG_DEFAULT
            }
        },
    }
}

/// Resolves a cell colour to RGB.
pub fn resolve_color(color: &CellColor, is_fg: bool) -> (c: [u8; 3])
    ensures
        rgb_of(c) == spec_resolve_color(*color, is_fg),
{
    match color {
        CellColor::Named(named) => named_to_rgb(*named, is_fg),
        CellColor::Spec(rgb) => [rgb.r, rgb.g, rgb.b],
        CellColor::Indexed(idx) => index_to_rgb(*idx),
    }
}


/// Law: every colour of the 6x6x6 cube has channels that are multiples of 51,
/// and the index is recovered from them as `16 + 36 r' + 6 g' + b'` with
/// `x' = x / 51`.
pub proof fn lemma_cube_decomposition(idx: u8)
    requires
        16 <= idx <= 231,
    ensures
        ({
            let (r, g, b) = spec_index_to_rgb(idx);
            &&& r % 51 == 0 && g % 51 == 0 && b % 51 == 0
            &&& idx == 16 + 36 * (r / 51) + 6 * (g / 51) + b / 51
        }),
{
    let i = (idx - 16) as int;
    assert(i == 36 * (i / 36) + 6 * ((i / 6) % 6) + i % 6) by (nonlinear_arith)
        requires
            0 <= i < 216,
    ;
}

/// Law: the indices 232..=255 form a grey ramp, `8 + 10 (idx - 232)` on every channel.
pub proof fn lemma_grey_ramp(idx: u8)
    requires
        idx >= 232,
    ensures
        spec_index_to_rgb(idx) == ((8 + 10 * (idx - 232)) as u8, (8 + 10 * (idx - 232)) as u8, (8
            + 10 * (idx - 232)) as u8),
        8 + 10 * (idx - 232) <= 238,
{
}

/// Law: the grey ramp gets strictly lighter as the index grows.
pub proof fn lemma_grey_ramp_increasing(a: u8, b: u8)
    requires
        232 <= a < b,
    ensures
        spec_index_to_rgb(a).0 < spec_index_to_rgb(b).0,
{
}

/// Law: a base-palette name and its index in the 256-colour table resolve
/// to the same RGB, whether drawn as text or as background.
pub proof fn lemma_named_matches_indexed(named: NamedColor, is_fg: bool)
    requires
        palette_slot(named) is Some,
    ensures
        spec_resolve_color(CellColor::Named(named), is_fg) == spec_resolve_color(
            CellColor::Indexed(palette_slot(named).unwrap() as u8),
            is_fg,
        ),
{
}

/// Law: in this palette each bright colour (8..=15 except bright black)
/// equals its normal counterpart.
pub proof fn lemma_bright_equals_normal(i: int)
    requires
        1 <= i <= 7,
    ensures
        palette_rgb(i + 8) == palette_rgb(i),
{
}


/// Law: the sixteen base colours are the Catppuccin Mocha palette
/// (base, red, green, yellow, blue, pink, teal, text, surface2, then the
/// bright variants), entry by entry.
pub proof fn lemma_base_palette_table()
    ensures
        spec_index_to_rgb(0) == (30u8, 30u8, 46u8),
        spec_index_to_rgb(1) == (243u8, 139u8, 168u8),
        spec_index_to_rgb(2) == (166u8, 227u8, 161u8),
        spec_index_to_rgb(3) == (249u8, 226u8, 175u8),
        spec_index_to_rgb(4) == (137u8, 180u8, 250u8),
        spec_index_to_rgb(5) == (245u8, 194u8, 231u8),
        spec_index_to_rgb(6) == (148u8, 226u8, 213u8),
        spec_index_to_rgb(7) == (205u8, 214u8, 244u8),
        spec_index_to_rgb(8) == (88u8, 91u8, 112u8),
        spec_index_to_rgb(9) == (243u8, 139u8, 168u8),
        spec_index_to_rgb(10) == (166u8, 227u8, 161u8),
        spec_index_to_rgb(11) == (249u8, 226u8, 175u8),
        spec_index_to_rgb(12) == (137u8, 180u8, 250u8),
        spec_index_to_rgb(13) == (245u8, 194u8, 231u8),
        spec_index_to_rgb(14) == (148u8, 226u8, 213u8),
        spec_index_to_rgb(15) == (205u8, 214u8, 244u8),
{
}

/// Law: the named base colours resolve to their Catppuccin Mocha values, and
/// the foreground/background defaults are "text" and "base".
pub proof fn lemma_named_palette_table(is_fg: bool)
    ensures
        spec_named_to_rgb(NamedColor::Black, is_fg) == (30u8, 30u8, 46u8),
        spec_named_to_rgb(NamedColor::Red, is_fg) == (243u8, 139u8, 168u8),
        spec_named_to_rgb(NamedColor::Green, is_fg) == (166u8, 227u8, 161u8),
        spec_named_to_rgb(NamedColor::Yellow, is_fg) == (249u8, 226u8, 175u8),
        spec_named_to_rgb(NamedColor::Blue, is_fg) == (137u8, 180u8, 250u8),
        spec_named_to_rgb(NamedColor::Magenta, is_fg) == (245u8, 194u8, 231u8),
        spec_named_to_rgb(NamedColor::Cyan, is_fg) == (148u8, 226u8, 213u8),
        spec_named_to_rgb(NamedColor::White, is_fg) == (205u8, 214u8, 244u8),
        spec_named_to_rgb(NamedColor::BrightBlack, is_fg) == (88u8, 91u8, 112u8),
        spec_named_to_rgb(NamedColor::BrightRed, is_fg) == (243u8, 139u8, 168u8),
        spec_named_to_rgb(NamedColor::BrightGreen, is_fg) == (166u8, 227u8, 161u8),
        spec_named_to_rgb(NamedColor::BrightYellow, is_fg) == (249u8, 226u8, 175u8),
        spec_named_to_rgb(NamedColor::BrightBlue, is_fg) == (137u8, 180u8, 250u8),
        spec_named_to_rgb(NamedColor::BrightMagenta, is_fg) == (245u8, 194u8, 231u8),
        spec_named_to_rgb(NamedColor::BrightCyan, is_fg) == (148u8, 226u8, 213u8),
        spec_named_to_rgb(NamedColor::BrightWhite, is_fg) == (205u8, 214u8, 244u8),
        spec_named_to_rgb(NamedColor::Background, is_fg) == (30u8, 30u8, 46u8),
        spec_named_to_rgb(NamedColor::Foreground, true) == (205u8, 214u8, 244u8),
        spec_named_to_rgb(NamedColor::Foreground, false) == (30u8, 30u8, 46u8),
{
}

} // verus!
