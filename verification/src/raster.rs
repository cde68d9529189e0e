//! Compositing of the terminal grid into an ARGB8888 pixel buffer (bytes in
//! B, G, R, A order, four bytes per pixel, rows of `surface_width` pixels).

use vstd::prelude::*;
use crate::palette::{CellColor, spec_resolve_color};
use vstd::arithmetic::div_mod::{
    lemma_fundamental_div_mod,
    lemma_fundamental_div_mod_converse_div,
    lemma_fundamental_div_mod_converse_mod,
    lemma_mod_pos_bound,
};

verus! {

/// Byte `k` (0..4) of the pixel that shows colour `c = (r, g, b)` with alpha `a`.
pub open spec fn bgra_byte(c: (u8, u8, u8), a: u8, k: int) -> u8 {
    if k == 0 {
        c.2
    } else if k == 1 {
        c.1
    } else if k == 2 {
        c.0
    } else {
        a
    }
}

/// Number of buffer bytes that belong to whole pixels.
pub open spec fn pixel_bytes(len: int) -> int {
    len - len % 4
}

/// The buffer after every whole pixel has been set to `pixel`; a trailing
/// partial pixel is left as it was.
pub open spec fn spec_fill_pixels(buf: Seq<u8>, pixel: Seq<u8>) -> Seq<u8> {
    Seq::new(buf.len(), |j: int| if j < pixel_bytes(buf.len() as int) { pixel[j % 4] } else { buf[j] })
}

/// Sets every whole pixel of `buf` to the four bytes of `pixel`.
pub fn fill_pixels(buf: &mut [u8], pixel: [u8; 4])
    ensures
        final(buf)@ == spec_fill_pixels(old(buf)@, pixel@),
{
    let len = buf.len();
    let n = len / 4;
    let mut k: usize = 0;
    while k < n
        invariant
            n == len / 4,
            len == buf@.len(),
            len == old(buf)@.len(),
            k <= n,
            forall|j: int|
                0 <= j < len ==> #[trigger] buf@[j] == (if j < 4 * k {
                    pixel@[j % 4]
                } else {
                    old(buf)@[j]
                }),
        decreases n - k,
    {
        let o = 4 * k;
        buf[o] = pixel[0];
        buf[o + 1] = pixel[1];
        buf[o + 2] = pixel[2];
        buf[o + 3] = pixel[3];
        k = k + 1;
    }
    assert(final(buf)@ =~= spec_fill_pixels(old(buf)@, pixel@));
}


/// Sets pixel `p` (bytes `4p .. 4p + 4`) to `bytes`.
fn set_pixel(buf: &mut [u8], p: usize, bytes: [u8; 4])
    requires
        4 * p + 3 < old(buf)@.len(),
    ensures
        final(buf)@.len() == old(buf)@.len(),
        forall|j: int|
            0 <= j < old(buf)@.len() ==> #[trigger] final(buf)@[j] == (if j / 4 == p {
                bytes@[j % 4]
            } else {
                old(buf)@[j]
            }),
{
    let o = 4 * p;
    buf[o] = bytes[0];
    buf[o + 1] = bytes[1];
    buf[o + 2] = bytes[2];
    buf[o + 3] = bytes[3];
}

/// The product of two machine words plus a third fits in 128 bits.
proof fn lemma_wide_product(a: usize, b: usize)
    ensures
        (a as int) * (b as int) + usize::MAX <= u128::MAX,
{
    assert((a as int) * (b as int) <= (usize::MAX as int) * (usize::MAX as int)) by (nonlinear_arith)
        requires
            a <= usize::MAX,
            b <= usize::MAX,
            a >= 0,
            b >= 0,
    ;
    assert((usize::MAX as int) * (usize::MAX as int) + usize::MAX <= u128::MAX) by (nonlinear_arith)
        requires
            usize::MAX <= u64::MAX,
    ;
}

/// Pixel `p` lies in column `x` and row `y` exactly when `p == y * sw + x`.
proof fn lemma_pixel_position(p: int, sw: int, x: int, y: int)
    requires
        sw > 0,
        0 <= x < sw,
        p >= 0,
    ensures
        (p % sw == x && p / sw == y) <==> p == y * sw + x,
{
    if p == y * sw + x {
        lemma_fundamental_div_mod_converse_mod(p, sw, y, x);
        lemma_fundamental_div_mod_converse_div(p, sw, y, x);
    }
    if p % sw == x && p / sw == y {
        lemma_fundamental_div_mod(p, sw);
        assert(sw * (p / sw) == y * sw) by (nonlinear_arith)
            requires
                p / sw == y,
        ;
    }
}

/// The column of a pixel index is below the surface width.
proof fn lemma_column_bound(p: int, sw: int)
    requires
        sw > 0,
        p >= 0,
    ensures
        0 <= p % sw < sw,
{
    lemma_mod_pos_bound(p, sw);
}

/// Pixel `p` of a buffer of `len` bytes, in a surface `sw` pixels wide, lies
/// in columns `x0..x1` and rows `y0..y1`.
pub open spec fn in_rect(p: int, sw: int, len: int, x0: int, x1: int, y0: int, y1: int) -> bool {
    &&& sw > 0
    &&& 0 <= p
    &&& 4 * p + 3 < len
    &&& x0 <= p % sw < x1
    &&& y0 <= p / sw < y1
}

/// The buffer after the `w` x `h` rectangle at column `px`, row `py` has been
/// painted opaque with colour `c`; the parts of it right of the surface edge or
/// beyond the end of the buffer are not drawn.
pub open spec fn spec_paint_rect(
    buf: Seq<u8>,
    sw: int,
    px: int,
    py: int,
    w: int,
    h: int,
    c: (u8, u8, u8),
) -> Seq<u8> {
    Seq::new(
        buf.len(),
        |j: int|
            if in_rect(j / 4, sw, buf.len() as int, px, px + w, py, py + h) {
                bgra_byte(c, 255, j % 4)
            } else {
                buf[j]
            },
    )
}

/// Paints the `w` x `h` rectangle of pixels whose top-left corner is at column
/// `px`, row `py` with the opaque colour `color` (RGB).
pub fn paint_rect(
    buf: &mut [u8],
    surface_width: usize,
    px: usize,
    py: usize,
    w: usize,
    h: usize,
    color: [u8; 3],
)
    requires
        px + w <= usize::MAX + 1,
        py + h <= usize::MAX + 1,
    ensures
        final(buf)@ == spec_paint_rect(
            old(buf)@,
            surface_width as int,
            px as int,
            py as int,
            w as int,
            h as int,
            crate::palette::rgb_of(color),
        ),
{
    let ghost old_buf = buf@;
    let ghost sw = surface_width as int;
    let len = buf.len();
    let bytes: [u8; 4] = [color[2], color[1], color[0], 255];
    let ghost c = crate::palette::rgb_of(color);
    assert(forall|k: int| 0 <= k < 4 ==> #[trigger] bytes@[k] == bgra_byte(c, 255, k));
    let mut dy: usize = 0;
    while dy < h
        invariant
            len == buf@.len(),
            len == old_buf.len(),
            sw == surface_width,
            px + w <= usize::MAX + 1,
            py + h <= usize::MAX + 1,
            dy <= h,
            forall|k: int| 0 <= k < 4 ==> #[trigger] bytes@[k] == bgra_byte(c, 255, k),
            forall|j: int|
                0 <= j < len ==> #[trigger] buf@[j] == (if in_rect(
                    j / 4,
                    sw,
                    len as int,
                    px as int,
                    px + w,
                    py as int,
                    py + dy,
                ) {
                    bgra_byte(c, 255, j % 4)
                } else {
                    old_buf[j]
                }),
        decreases h - dy,
    {
        let y = py + dy;
        let mut dx: usize = 0;
        while dx < w
            invariant
                len == buf@.len(),
                len == old_buf.len(),
                sw == surface_width,
                px + w <= usize::MAX + 1,
                py + h <= usize::MAX + 1,
                dy < h,
                y == py + dy,
                dx <= w,
                forall|k: int| 0 <= k < 4 ==> #[trigger] bytes@[k] == bgra_byte(c, 255, k),
                forall|j: int|
                    0 <= j < len ==> #[trigger] buf@[j] == (if in_rect(
                        j / 4,
                        sw,
                        len as int,
                        px as int,
                        px + w,
                        py as int,
                        py + dy,
                    ) || in_rect(j / 4, sw, len as int, px as int, px + dx, y as int, y + 1) {
                        bgra_byte(c, 255, j % 4)
                    } else {
                        old_buf[j]
                    }),
            decreases w - dx,
        {
            let x = px + dx;
            let ghost prev = buf@;
            if x < surface_width {
                proof {
                    lemma_wide_product(y, surface_width);
                }
                let p: u128 = (y as u128) * (surface_width as u128) + (x as u128);
                if p < len as u128 && p * 4 + 3 < len as u128 {
                    let pu = p as usize;
                    set_pixel(buf, pu, bytes);
                    assert forall|j: int| 0 <= j < len implies #[trigger] buf@[j] == (if in_rect(
                        j / 4,
                        sw,
                        len as int,
                        px as int,
                        px + w,
                        py as int,
                        py + dy,
                    ) || in_rect(j / 4, sw, len as int, px as int, px + dx + 1, y as int, y + 1) {
                        bgra_byte(c, 255, j % 4)
                    } else {
                        old_buf[j]
                    }) by {
                        if j >= 0 {
                            lemma_pixel_position(j / 4, sw, x as int, y as int);
                            lemma_column_bound(j / 4, sw);
                        }
                    }
                } else {
                    assert forall|j: int| 0 <= j < len implies #[trigger] buf@[j] == (if in_rect(
                        j / 4,
                        sw,
                        len as int,
                        px as int,
                        px + w,
                        py as int,
                        py + dy,
                    ) || in_rect(j / 4, sw, len as int, px as int, px + dx + 1, y as int, y + 1) {
                        bgra_byte(c, 255, j % 4)
                    } else {
                        old_buf[j]
                    }) by {
                        if j >= 0 {
                            lemma_pixel_position(j / 4, sw, x as int, y as int);
                            lemma_column_bound(j / 4, sw);
                        }
                    }
                }
            } else {
                assert forall|j: int| 0 <= j < len implies #[trigger] buf@[j] == (if in_rect(
                    j / 4,
                    sw,
                    len as int,
                    px as int,
                    px + w,
                    py as int,
                    py + dy,
                ) || in_rect(j / 4, sw, len as int, px as int, px + dx + 1, y as int, y + 1) {
                    bgra_byte(c, 255, j % 4)
                } else {
                    old_buf[j]
                }) by {
                    if sw > 0 && j >= 0 {
                        lemma_column_bound(j / 4, sw);
                    }
                }
            }
            dx = dx + 1;
        }
        dy = dy + 1;
    }
    assert(buf@ =~= spec_paint_rect(old_buf, sw, px as int, py as int, w as int, h as int, c));
}


/// `a / 255` of the way from `bg` to `fg`, rounded down.
pub open spec fn blend(fg: u8, bg: u8, a: u8) -> u8 {
    ((fg * a + bg * (255 - a)) / 255) as u8
}

proof fn lemma_blend_in_range(fg: u8, bg: u8, a: u8)
    ensures
        0 <= fg * a + bg * (255 - a) <= 255 * 255,
{
    assert(0 <= fg * a + bg * (255 - a) <= 255 * 255) by (nonlinear_arith)
        requires
            fg <= 255,
            bg <= 255,
            a <= 255,
    ;
}

/// Composites foreground `fg` over `bg` with coverage `a` (0 = transparent, 255 = opaque).
pub fn blend_channel(fg: u8, bg: u8, a: u8) -> (r: u8)
    ensures
        r == blend(fg, bg, a),
{
    proof {
        lemma_blend_in_range(fg, bg, a);
    }
    let v: u32 = ((fg as u32) * (a as u32) + (bg as u32) * (255 - (a as u32))) / 255;
    v as u8
}

/// Law: full coverage shows the foreground, no coverage keeps the background,
/// and any coverage gives a value between the two.
pub proof fn lemma_blend_between(fg: u8, bg: u8, a: u8)
    ensures
        blend(fg, bg, 255) == fg,
        blend(fg, bg, 0) == bg,
        fg <= bg ==> fg <= blend(fg, bg, a) <= bg,
        bg <= fg ==> bg <= blend(fg, bg, a) <= fg,
{
    lemma_blend_in_range(fg, bg, a);
    assert((fg * 0 + bg * (255 - 0)) / 255 == bg) by (nonlinear_arith)
        requires
            0 <= bg <= 255,
    ;
    let t = fg * a + bg * (255 - a);
    if fg <= bg {
        assert(255 * fg <= t <= 255 * bg) by (nonlinear_arith)
            requires
                fg <= bg,
                t == fg * a + bg * (255 - a),
                0 <= a <= 255,
        ;
    } else {
        assert(255 * bg <= t <= 255 * fg) by (nonlinear_arith)
            requires
                bg <= fg,
                t == fg * a + bg * (255 - a),
                0 <= a <= 255,
        ;
    }
}

/// A glyph bitmap: `width` samples per row, one coverage byte per sample,
/// placed with the offsets `xmin` and `ymin` of its bounding box.
pub struct Glyph {
    pub width: usize,
    pub height: usize,
    pub xmin: i32,
    pub ymin: i32,
    pub bitmap: Vec<u8>,
}

/// Columns by which the bitmap is shifted right inside its cell.
pub open spec fn x_shift(g: &Glyph) -> int {
    if g.xmin > 0 {
        g.xmin as int
    } else {
        0
    }
}

/// Rows by which the bitmap is raised above the cell's baseline row.
pub open spec fn y_lift(g: &Glyph) -> int {
    let ym: int = if g.ymin > 0 {
        g.ymin as int
    } else {
        0
    };
    if g.height >= ym {
        g.height - ym
    } else {
        0
    }
}

/// Whether pixel `p` receives a nonzero sample of the glyph whose sample
/// (0, 0) lies at column `ox`, row `oy`, counting only samples before `upto`.
pub open spec fn glyph_covers(
    p: int,
    sw: int,
    len: int,
    ox: int,
    oy: int,
    g: &Glyph,
    upto: int,
) -> bool {
    let gx = p % sw - ox;
    let gy = p / sw - oy;
    let i = gy * g.width + gx;
    &&& sw > 0
    &&& 0 <= p
    &&& 4 * p + 3 < len
    &&& 0 <= gx < g.width
    &&& 0 <= gy
    &&& i < g.bitmap@.len()
    &&& i < upto
    &&& g.bitmap@[i] != 0
}

/// The sample of the glyph that lands on pixel `p` (meaningful when it is covered).
pub open spec fn glyph_sample(p: int, sw: int, ox: int, oy: int, g: &Glyph) -> u8 {
    g.bitmap@[(p / sw - oy) * g.width + (p % sw - ox)]
}

/// Byte `k` of a pixel after compositing colour `c` with coverage `a` over `old`:
/// the colour channels are blended and the pixel becomes opaque.
pub open spec fn blended_byte(c: (u8, u8, u8), a: u8, old: u8, k: int) -> u8 {
    if k == 3 {
        255
    } else {
        blend(bgra_byte(c, 255, k), old, a)
    }
}

/// The buffer after the glyph has been composited in colour `c` with its
/// sample (0, 0) at column `ox`, row `oy`. Samples that are zero, fall left of
/// the surface, above its top, right of its edge or past the end of the buffer
/// change nothing.
pub open spec fn spec_blend_glyph(
    buf: Seq<u8>,
    sw: int,
    ox: int,
    oy: int,
    g: &Glyph,
    c: (u8, u8, u8),
) -> Seq<u8> {
    Seq::new(
        buf.len(),
        |j: int|
            if glyph_covers(j / 4, sw, buf.len() as int, ox, oy, g, g.bitmap@.len() as int) {
                blended_byte(c, glyph_sample(j / 4, sw, ox, oy, g), buf[j], j % 4)
            } else {
                buf[j]
            },
    )
}

/// Pins down the row and column of sample `i` in a bitmap `mw` samples wide.
proof fn lemma_sample_position(i: int, mw: int, gx: int, gy: int)
    requires
        mw > 0,
        i >= 0,
    ensures
        (0 <= gx < mw && gy * mw + gx == i) <==> (gx == i % mw && gy == i / mw),
{
    lemma_mod_pos_bound(i, mw);
    if 0 <= gx < mw && gy * mw + gx == i {
        lemma_fundamental_div_mod_converse_mod(i, mw, gy, gx);
        lemma_fundamental_div_mod_converse_div(i, mw, gy, gx);
    }
    if gx == i % mw && gy == i / mw {
        lemma_fundamental_div_mod(i, mw);
        assert(mw * (i / mw) == gy * mw) by (nonlinear_arith)
            requires
                gy == i / mw,
        ;
    }
}

/// Composites `glyph` in colour `fg` (RGB) into the cell whose top-left pixel is
/// at column `px`, row `py`, with the glyph's baseline `baseline` rows below the
/// cell top: sample (gx, gy) goes to column `px + gx + max(xmin, 0)` and row
/// `py + baseline + gy - max(height - max(ymin, 0), 0)`.
pub fn blend_glyph(
    buf: &mut [u8],
    surface_width: usize,
    px: usize,
    py: usize,
    baseline: usize,
    glyph: &Glyph,
    fg: [u8; 3],
)
    requires
        glyph.bitmap@.len() > 0 ==> glyph.width > 0,
    ensures
        final(buf)@ == spec_blend_glyph(
            old(buf)@,
            surface_width as int,
            px + x_shift(glyph),
            py + baseline - y_lift(glyph),
            glyph,
            crate::palette::rgb_of(fg),
        ),
{
    let ghost old_buf = buf@;
    let ghost sw = surface_width as int;
    let ghost c = crate::palette::rgb_of(fg);
    let ghost ox = px + x_shift(glyph);
    let ghost oy = py + baseline - y_lift(glyph);
    let len = buf.len();
    let n = glyph.bitmap.len();
    let mw = glyph.width;
    let xoff: usize = if glyph.xmin > 0 {
        glyph.xmin as usize
    } else {
        0
    };
    let ymin: usize = if glyph.ymin > 0 {
        glyph.ymin as usize
    } else {
        0
    };
    let lift: usize = if glyph.height >= ymin {
        glyph.height - ymin
    } else {
        0
    };
    assert(xoff == x_shift(glyph));
    assert(lift == y_lift(glyph));
    let mut i: usize = 0;
    while i < n
        invariant
            len == buf@.len(),
            len == old_buf.len(),
            n == glyph.bitmap@.len(),
            n > 0 ==> mw > 0,
            mw == glyph.width,
            sw == surface_width,
            xoff == x_shift(glyph),
            lift == y_lift(glyph),
            ox == px + xoff,
            oy == py + baseline - lift,
            c == crate::palette::rgb_of(fg),
            i <= n,
            forall|j: int|
                0 <= j < len ==> #[trigger] buf@[j] == (if glyph_covers(
                    j / 4,
                    sw,
                    len as int,
                    ox,
                    oy,
                    glyph,
                    i as int,
                ) {
                    blended_byte(c, glyph_sample(j / 4, sw, ox, oy, glyph), old_buf[j], j % 4)
                } else {
                    old_buf[j]
                }),
        decreases n - i,
    {
        proof {
            lemma_mod_pos_bound(i as int, mw as int);
        }
        let gx = i % mw;
        let gy = i / mw;
        let a = glyph.bitmap[i];
        let x: u128 = (px as u128) + (gx as u128) + (xoff as u128);
        let y_down: u128 = (py as u128) + (baseline as u128) + (gy as u128);
        let ghost x0: int = x as int;
        let ghost y0: int = y_down - lift;
        let mut wrote = false;
        if a != 0 && y_down >= lift as u128 && x < surface_width as u128 {
            let y = y_down - (lift as u128);
            if y < len as u128 {
                proof {
                    lemma_wide_product(y as usize, surface_width);
                }
                let p: u128 = y * (surface_width as u128) + x;
                if p < len as u128 && p * 4 + 3 < len as u128 {
                    let pu = p as usize;
                    let o = 4 * pu;
                    let b0 = blend_channel(fg[2], buf[o], a);
                    let b1 = blend_channel(fg[1], buf[o + 1], a);
                    let b2 = blend_channel(fg[0], buf[o + 2], a);
                    let ghost prev = buf@;
                    set_pixel(buf, pu, [b0, b1, b2, 255]);
                    wrote = true;
                    assert forall|j: int| 0 <= j < len implies #[trigger] buf@[j] == (if glyph_covers(
                        j / 4,
                        sw,
                        len as int,
                        ox,
                        oy,
                        glyph,
                        i + 1,
                    ) {
                        blended_byte(c, glyph_sample(j / 4, sw, ox, oy, glyph), old_buf[j], j % 4)
                    } else {
                        old_buf[j]
                    }) by {
                        let q = j / 4;
                        lemma_column_bound(q, sw);
                        lemma_pixel_position(q, sw, x0, y0);
                        lemma_sample_position(i as int, mw as int, q % sw - ox, q / sw - oy);
                        if q == pu {
                            assert(q % sw == x0 && q / sw == y0);
                            assert((q / sw - oy) * mw + (q % sw - ox) == i);
                            assert(!glyph_covers(q, sw, len as int, ox, oy, glyph, i as int));
                            assert(prev[4 * q + (j % 4)] == old_buf[j]);
                        }
                    }
                }
            }
        }
        if !wrote {
            assert forall|j: int| 0 <= j < len implies #[trigger] buf@[j] == (if glyph_covers(
                j / 4,
                sw,
                len as int,
                ox,
                oy,
                glyph,
                i + 1,
            ) {
                blended_byte(c, glyph_sample(j / 4, sw, ox, oy, glyph), old_buf[j], j % 4)
            } else {
                old_buf[j]
            }) by {
                let q = j / 4;
                if sw > 0 {
                    lemma_column_bound(q, sw);
                    lemma_sample_position(i as int, mw as int, q % sw - ox, q / sw - oy);
                    if 0 <= x0 < sw {
                        lemma_pixel_position(q, sw, x0, y0);
                    }
                }
            }
        }
        i = i + 1;
    }
    assert(buf@ =~= spec_blend_glyph(old_buf, sw, ox, oy, glyph, c));
}


/// One cell of the terminal grid: its character and its colours.
pub struct GridCell {
    pub c: char,
    pub fg: CellColor,
    pub bg: CellColor,
}

/// Blank cells (space or NUL) get their background only.
pub open spec fn draws_glyph(c: char) -> bool {
    c != ' ' && c != '\0'
}

/// Whether a cell with character `c` shows its background only.
pub fn is_blank(c: char) -> (r: bool)
    ensures
        r == !draws_glyph(c),
{
    c == ' ' || c == '\0'
}

/// A glyph whose bitmap can be walked row by row.
pub open spec fn glyph_well_formed(g: &Glyph) -> bool {
    g.bitmap@.len() > 0 ==> g.width > 0
}

/// Row of the baseline inside a cell `ch` pixels high.
pub open spec fn baseline_row(ch: int) -> int {
    ch - ch / 5
}

/// The buffer after one cell has been drawn at column `px`, row `py`: its
/// background rectangle, then, unless the cell is blank, its glyph.
pub open spec fn spec_draw_cell(
    buf: Seq<u8>,
    sw: int,
    px: int,
    py: int,
    cw: int,
    ch: int,
    cell: GridCell,
    glyph: Option<Glyph>,
) -> Seq<u8> {
    let painted = spec_paint_rect(buf, sw, px, py, cw, ch, spec_resolve_color(cell.bg, false));
    match glyph {
        Some(g) => if draws_glyph(cell.c) {
            spec_blend_glyph(
                painted,
                sw,
                px + x_shift(&g),
                py + baseline_row(ch) - y_lift(&g),
                &g,
                spec_resolve_color(cell.fg, true),
            )
        } else {
            painted
        },
        None => painted,
    }
}

/// The buffer after the first `k` cells (row-major, `cols` per row) have been drawn.
pub open spec fn spec_render_cells(
    buf: Seq<u8>,
    sw: int,
    cols: int,
    cw: int,
    ch: int,
    cells: Seq<GridCell>,
    glyphs: Seq<Option<Glyph>>,
    k: nat,
) -> Seq<u8>
    decreases k,
{
    if k == 0 {
        buf
    } else {
        let i = k - 1;
        spec_draw_cell(
            spec_render_cells(buf, sw, cols, cw, ch, cells, glyphs, i as nat),
            sw,
            (i as int % cols) * cw,
            (i as int / cols) * ch,
            cw,
            ch,
            cells[i as int],
            glyphs[i as int],
        )
    }
}

/// Bytes of the default background as an opaque pixel.
pub open spec fn background_pixel() -> Seq<u8> {
    seq![46u8, 30u8, 30u8, 255u8]
}

/// The frame: the whole buffer cleared to the default background, then every
/// cell drawn in row-major order, later cells over earlier ones.
pub open spec fn spec_render(
    buf: Seq<u8>,
    sw: int,
    cols: int,
    cw: int,
    ch: int,
    cells: Seq<GridCell>,
    glyphs: Seq<Option<Glyph>>,
) -> Seq<u8> {
    spec_render_cells(
        spec_fill_pixels(buf, background_pixel()),
        sw,
        cols,
        cw,
        ch,
        cells,
        glyphs,
        cells.len(),
    )
}

/// Cell `row * cols + col` is the cell in row `row`, column `col`.
proof fn lemma_cell_index(row: int, col: int, cols: int, rows: int)
    requires
        0 <= row < rows,
        0 <= col < cols,
    ensures
        (row * cols + col) / cols == row,
        (row * cols + col) % cols == col,
        0 <= row * cols + col < rows * cols,
        row * cols + col + 1 <= rows * cols,
{
    lemma_fundamental_div_mod_converse_mod(row * cols + col, cols, row, col);
    lemma_fundamental_div_mod_converse_div(row * cols + col, cols, row, col);
    assert(0 <= row * cols + col < rows * cols) by (nonlinear_arith)
        requires
            0 <= row < rows,
            0 <= col < cols,
    ;
}

/// The cell at index `i < n` starts at least one cell size before `n * size`.
proof fn lemma_cell_origin(i: int, n: int, size: int)
    requires
        0 <= i < n,
        size >= 0,
        n * size <= usize::MAX + 1,
    ensures
        0 <= i * size,
        i * size + size <= n * size,
        i * size <= usize::MAX,
{
    assert(0 <= i * size && i * size + size <= n * size) by (nonlinear_arith)
        requires
            0 <= i < n,
            size >= 0,
    ;
    if size == 0 {
        assert(i * size == 0) by (nonlinear_arith)
            requires
                size == 0,
        ;
    }
}

/// Draws the terminal grid: clears the buffer to the default background, then
/// for each cell, row by row, paints its background colour over its
/// `cell_width` x `cell_height` rectangle and, if the cell is not blank and has
/// a glyph, composites the glyph in the foreground colour.
/// `cells` and `glyphs` hold one entry per cell in row-major order.
pub fn render_grid(
    buf: &mut [u8],
    surface_width: usize,
    cols: usize,
    rows: usize,
    cells: &Vec<GridCell>,
    glyphs: &Vec<Option<Glyph>>,
    cell_width: usize,
    cell_height: usize,
)
    requires
        cells@.len() == rows * cols,
        glyphs@.len() == cells@.len(),
        forall|k: int|
            0 <= k < glyphs@.len() ==> (#[trigger] glyphs@[k] matches Some(g) ==> glyph_well_formed(
                &g,
            )),
        cols * cell_width <= usize::MAX + 1,
        rows * cell_height <= usize::MAX + 1,
    ensures
        final(buf)@ == spec_render(
            old(buf)@,
            surface_width as int,
            cols as int,
            cell_width as int,
            cell_height as int,
            cells@,
            glyphs@,
        ),
{
    let ncells = cells.len();
    fill_pixels(buf, [46, 30, 30, 255]);
    let ghost start = buf@;
    assert([46u8, 30u8, 30u8, 255u8]@ =~= background_pixel());
    let baseline = cell_height - cell_height / 5;
    let mut row: usize = 0;
    while row < rows
        invariant
            cells@.len() == rows * cols,
            glyphs@.len() == cells@.len(),
            forall|k: int|
                0 <= k < glyphs@.len() ==> (#[trigger] glyphs@[k] matches Some(g)
                    ==> glyph_well_formed(&g)),
            cols * cell_width <= usize::MAX + 1,
            rows * cell_height <= usize::MAX + 1,
            baseline == baseline_row(cell_height as int),
            row <= rows,
            ncells == cells@.len(),
            start.len() == buf@.len(),
            buf@ == spec_render_cells(
                start,
                surface_width as int,
                cols as int,
                cell_width as int,
                cell_height as int,
                cells@,
                glyphs@,
                (row * cols) as nat,
            ),
        decreases rows - row,
    {
        proof {
            lemma_cell_origin(row as int, rows as int, cell_height as int);
        }
        let py = row * cell_height;
        let mut col: usize = 0;
        while col < cols
            invariant
                cells@.len() == rows * cols,
                glyphs@.len() == cells@.len(),
                forall|k: int|
                    0 <= k < glyphs@.len() ==> (#[trigger] glyphs@[k] matches Some(g)
                        ==> glyph_well_formed(&g)),
                cols * cell_width <= usize::MAX + 1,
                rows * cell_height <= usize::MAX + 1,
                baseline == baseline_row(cell_height as int),
                row < rows,
                py == row * cell_height,
                py + cell_height <= usize::MAX + 1,
                ncells == cells@.len(),
                col <= cols,
                start.len() == buf@.len(),
                buf@ == spec_render_cells(
                    start,
                    surface_width as int,
                    cols as int,
                    cell_width as int,
                    cell_height as int,
                    cells@,
                    glyphs@,
                    (row * cols + col) as nat,
                ),
            decreases cols - col,
        {
            proof {
                lemma_cell_index(row as int, col as int, cols as int, rows as int);
                assert(ncells == rows * cols);
                lemma_cell_origin(col as int, cols as int, cell_width as int);
            }
            let k = row * cols + col;
            let px = col * cell_width;
            let cell = &cells[k];
            let bg = crate::palette::resolve_color(&cell.bg, false);
            paint_rect(buf, surface_width, px, py, cell_width, cell_height, bg);
            if !is_blank(cell.c) {
                match &glyphs[k] {
                    Some(g) => {
                        let fg = crate::palette::resolve_color(&cell.fg, true);
                        blend_glyph(buf, surface_width, px, py, baseline, g, fg);
                    },
                    None => {},
                }
            }
            col = col + 1;
        }
        assert((row + 1) * cols == row * cols + cols) by (nonlinear_arith);
        row = row + 1;
    }
}


/// Every whole pixel of the buffer has alpha 255.
pub open spec fn all_opaque(buf: Seq<u8>) -> bool {
    forall|j: int| 0 <= j < pixel_bytes(buf.len() as int) && j % 4 == 3 ==> #[trigger] buf[j] == 255
}

/// The two buffers have the same length and the same whole pixels.
pub open spec fn same_pixels(a: Seq<u8>, b: Seq<u8>) -> bool {
    &&& a.len() == b.len()
    &&& forall|j: int| 0 <= j < pixel_bytes(a.len() as int) ==> #[trigger] a[j] == b[j]
}

proof fn lemma_draw_cell_keeps_opaque(
    buf: Seq<u8>,
    sw: int,
    px: int,
    py: int,
    cw: int,
    ch: int,
    cell: GridCell,
    glyph: Option<Glyph>,
)
    requires
        all_opaque(buf),
    ensures
        all_opaque(spec_draw_cell(buf, sw, px, py, cw, ch, cell, glyph)),
        spec_draw_cell(buf, sw, px, py, cw, ch, cell, glyph).len() == buf.len(),
{
}

proof fn lemma_draw_cell_keeps_same(
    a: Seq<u8>,
    b: Seq<u8>,
    sw: int,
    px: int,
    py: int,
    cw: int,
    ch: int,
    cell: GridCell,
    glyph: Option<Glyph>,
)
    requires
        same_pixels(a, b),
    ensures
        same_pixels(
            spec_draw_cell(a, sw, px, py, cw, ch, cell, glyph),
            spec_draw_cell(b, sw, px, py, cw, ch, cell, glyph),
        ),
{
}

proof fn lemma_render_cells_invariants(
    a: Seq<u8>,
    b: Seq<u8>,
    sw: int,
    cols: int,
    cw: int,
    ch: int,
    cells: Seq<GridCell>,
    glyphs: Seq<Option<Glyph>>,
    k: nat,
)
    requires
        same_pixels(a, b),
        all_opaque(a),
    ensures
        same_pixels(
            spec_render_cells(a, sw, cols, cw, ch, cells, glyphs, k),
            spec_render_cells(b, sw, cols, cw, ch, cells, glyphs, k),
        ),
        all_opaque(spec_render_cells(a, sw, cols, cw, ch, cells, glyphs, k)),
    decreases k,
{
    if k > 0 {
        let i = k - 1;
        lemma_render_cells_invariants(a, b, sw, cols, cw, ch, cells, glyphs, i as nat);
        let ra = spec_render_cells(a, sw, cols, cw, ch, cells, glyphs, i as nat);
        let rb = spec_render_cells(b, sw, cols, cw, ch, cells, glyphs, i as nat);
        lemma_draw_cell_keeps_opaque(
            ra,
            sw,
            (i as int % cols) * cw,
            (i as int / cols) * ch,
            cw,
            ch,
            cells[i as int],
            glyphs[i as int],
        );
        lemma_draw_cell_keeps_same(
            ra,
            rb,
            sw,
            (i as int % cols) * cw,
            (i as int / cols) * ch,
            cw,
            ch,
            cells[i as int],
            glyphs[i as int],
        );
    }
}

/// Law: a rendered frame is opaque, and it does not depend on what the buffer
/// held before: two buffers of the same length render to the same whole pixels.
pub proof fn lemma_render_opaque_and_fresh(
    a: Seq<u8>,
    b: Seq<u8>,
    sw: int,
    cols: int,
    cw: int,
    ch: int,
    cells: Seq<GridCell>,
    glyphs: Seq<Option<Glyph>>,
)
    requires
        a.len() == b.len(),
    ensures
        all_opaque(spec_render(a, sw, cols, cw, ch, cells, glyphs)),
        same_pixels(
            spec_render(a, sw, cols, cw, ch, cells, glyphs),
            spec_render(b, sw, cols, cw, ch, cells, glyphs),
        ),
{
    let fa = spec_fill_pixels(a, background_pixel());
    let fb = spec_fill_pixels(b, background_pixel());
    assert(all_opaque(fa));
    assert(same_pixels(fa, fb));
    lemma_render_cells_invariants(fa, fb, sw, cols, cw, ch, cells, glyphs, cells.len());
}

/// Law: painting the same rectangle twice gives the same buffer as painting it once.
pub proof fn lemma_paint_rect_idempotent(
    buf: Seq<u8>,
    sw: int,
    px: int,
    py: int,
    w: int,
    h: int,
    c: (u8, u8, u8),
)
    ensures
        spec_paint_rect(spec_paint_rect(buf, sw, px, py, w, h, c), sw, px, py, w, h, c)
            == spec_paint_rect(buf, sw, px, py, w, h, c),
{
    assert(spec_paint_rect(spec_paint_rect(buf, sw, px, py, w, h, c), sw, px, py, w, h, c)
        =~= spec_paint_rect(buf, sw, px, py, w, h, c));
}

/// Law: a glyph whose samples are all zero leaves the buffer unchanged.
pub proof fn lemma_blank_glyph_changes_nothing(
    buf: Seq<u8>,
    sw: int,
    ox: int,
    oy: int,
    g: &Glyph,
    c: (u8, u8, u8),
)
    requires
        forall|i: int| 0 <= i < g.bitmap@.len() ==> #[trigger] g.bitmap@[i] == 0,
    ensures
        spec_blend_glyph(buf, sw, ox, oy, g, c) == buf,
{
    assert(spec_blend_glyph(buf, sw, ox, oy, g, c) =~= buf);
}


/// Law: compositing a glyph works over what the buffer already shows. At a
/// pixel `p` that receives a nonzero sample `a`, each colour byte `k` becomes
/// `(fg_k * a + old_k * (255 - a)) / 255` of the foreground channel `fg_k`
/// (B, G, R of `c`) and the byte `old_k` there before, so it lies between the
/// two and stays `old_k` when they agree; the alpha byte becomes 255. Every
/// byte of a pixel that receives no sample is unchanged.
pub proof fn lemma_glyph_composites_over_old(
    buf: Seq<u8>,
    sw: int,
    ox: int,
    oy: int,
    g: &Glyph,
    c: (u8, u8, u8),
    j: int,
)
    requires
        0 <= j < buf.len(),
    ensures
        ({
            let p = j / 4;
            let k = j % 4;
            let r = spec_blend_glyph(buf, sw, ox, oy, g, c)[j];
            let old = buf[j];
            let a = g.bitmap@[(p / sw - oy) * g.width + (p % sw - ox)];
            let fgk: u8 = if k == 0 {
                c.2
            } else if k == 1 {
                c.1
            } else {
                c.0
            };
            if glyph_covers(p, sw, buf.len() as int, ox, oy, g, g.bitmap@.len() as int) {
                &&& k < 3 ==> r as int == (fgk * a + old * (255 - a)) / 255
                &&& k < 3 && fgk <= old ==> fgk <= r <= old
                &&& k < 3 && old <= fgk ==> old <= r <= fgk
                &&& k == 3 ==> r == 255
            } else {
                r == old
            }
        }),
{
    let p = j / 4;
    let k = j % 4;
    let a = g.bitmap@[(p / sw - oy) * g.width + (p % sw - ox)];
    let fgk: u8 = if k == 0 {
        c.2
    } else if k == 1 {
        c.1
    } else {
        c.0
    };
    lemma_blend_in_range(fgk, buf[j], a);
    lemma_blend_between(fgk, buf[j], a);
}


/// Law: every character other than space and NUL is drawn, and where. The
/// glyph sample (gx, gy) of a cell at (px, py) lands at column
/// `px + max(xmin, 0) + gx` and row `py + (ch - ch / 5) - max(height - max(ymin, 0), 0) + gy`.
/// For a cell whose character `cell.c` is neither space nor NUL, if that sample
/// covers fully and lands inside the surface and the buffer, the pixel there
/// shows exactly the cell's foreground colour, opaque; a space or NUL cell
/// never shows its glyph, only its background.
pub proof fn lemma_visible_characters_are_drawn(
    buf: Seq<u8>,
    sw: int,
    px: int,
    py: int,
    cw: int,
    ch: int,
    cell: GridCell,
    g: Glyph,
    gx: int,
    gy: int,
)
    requires
        sw > 0,
        0 <= gx < g.width,
        0 <= gy,
        gy * g.width + gx < g.bitmap@.len(),
        g.bitmap@[gy * g.width + gx] == 255,
        0 <= px + (if g.xmin > 0 { g.xmin as int } else { 0 }) + gx < sw,
        0 <= py + (ch - ch / 5) - (if g.height >= (if g.ymin > 0 { g.ymin as int } else { 0 }) { g.height - (if g.ymin > 0 { g.ymin as int } else { 0 }) } else { 0 }) + gy,
        4 * ((py + (ch - ch / 5) - (if g.height >= (if g.ymin > 0 { g.ymin as int } else { 0 }) { g.height - (if g.ymin > 0 { g.ymin as int } else { 0 }) } else { 0 }) + gy) * sw + (px + (if g.xmin > 0 { g.xmin as int } else { 0 }) + gx)) + 3
            < buf.len(),
    ensures
        ({
            let x = px + (if g.xmin > 0 { g.xmin as int } else { 0 }) + gx;
            let y = py + (ch - ch / 5) - (if g.height >= (if g.ymin > 0 { g.ymin as int } else { 0 }) { g.height - (if g.ymin > 0 { g.ymin as int } else { 0 }) } else { 0 }) + gy;
            let o = 4 * (y * sw + x);
            let out = spec_draw_cell(buf, sw, px, py, cw, ch, cell, Some(g));
            let painted = spec_draw_cell(buf, sw, px, py, cw, ch, cell, None);
            let fg = spec_resolve_color(cell.fg, true);
            &&& (cell.c != ' ' && cell.c != '\0') ==> {
                &&& out[o] == fg.2
                &&& out[o + 1] == fg.1
                &&& out[o + 2] == fg.0
                &&& out[o + 3] == 255
            }
            &&& (cell.c == ' ' || cell.c == '\0') ==> out == painted
        }),
{
    let x = px + x_shift(&g) + gx;
    let y = py + baseline_row(ch) - y_lift(&g) + gy;
    let p = y * sw + x;
    let ox = px + x_shift(&g);
    let oy = py + baseline_row(ch) - y_lift(&g);
    assert(p >= 0) by (nonlinear_arith)
        requires
            y >= 0,
            sw > 0,
            x >= 0,
            p == y * sw + x,
    ;
    lemma_pixel_position(p, sw, x, y);
    assert(p % sw - ox == gx && p / sw - oy == gy);
    let fg = spec_resolve_color(cell.fg, true);
    lemma_blend_between(fg.2, 0, 255);
    lemma_blend_between(fg.1, 0, 255);
    lemma_blend_between(fg.0, 0, 255);
    let painted = spec_paint_rect(buf, sw, px, py, cw, ch, spec_resolve_color(cell.bg, false));
    lemma_blend_between(fg.2, painted[4 * p], 255);
    lemma_blend_between(fg.1, painted[4 * p + 1], 255);
    lemma_blend_between(fg.0, painted[4 * p + 2], 255);
    assert((4 * p) / 4 == p && (4 * p + 1) / 4 == p && (4 * p + 2) / 4 == p && (4 * p + 3) / 4 == p);
    assert((4 * p) % 4 == 0 && (4 * p + 1) % 4 == 1 && (4 * p + 2) % 4 == 2 && (4 * p + 3) % 4 == 3);
}


/// `x` lies in the `q`-th block of `d` consecutive values exactly when `x / d == q`.
proof fn lemma_div_interval(x: int, d: int, q: int)
    requires
        d > 0,
        x >= 0,
    ensures
        (q * d <= x < q * d + d) <==> x / d == q,
{
    lemma_fundamental_div_mod(x, d);
    lemma_mod_pos_bound(x, d);
    if x / d == q {
        assert(d * (x / d) == q * d) by (nonlinear_arith)
            requires
                x / d == q,
        ;
    }
    if q * d <= x < q * d + d {
        lemma_fundamental_div_mod_converse_div(x, d, q, x - q * d);
    }
}

/// The grid cell (row-major, `cols` per row, `cw` x `ch` pixels) that covers
/// column `x`, row `y`.
pub open spec fn cell_at(x: int, y: int, cols: int, cw: int, ch: int) -> int {
    (y / ch) * cols + x / cw
}

/// Cell `i` has its rectangle at columns `(i % cols) * cw ..` and rows
/// `(i / cols) * ch ..`: the pixel (x, y) is in it exactly when `cell_at(x, y) == i`.
proof fn lemma_cell_rectangle(i: int, x: int, y: int, cols: int, cw: int, ch: int)
    requires
        i >= 0,
        cols > 0,
        cw > 0,
        ch > 0,
        0 <= x < cols * cw,
        0 <= y,
    ensures
        ((i % cols) * cw <= x < (i % cols) * cw + cw && (i / cols) * ch <= y < (i / cols) * ch + ch)
            <==> cell_at(x, y, cols, cw, ch) == i,
{
    lemma_div_interval(x, cw, i % cols);
    lemma_div_interval(y, ch, i / cols);
    lemma_div_interval(x, cw, x / cw);
    assert(x / cw < cols) by {
        if x / cw >= cols {
            lemma_fundamental_div_mod(x, cw);
            lemma_mod_pos_bound(x, cw);
            assert(cw * (x / cw) >= cols * cw) by (nonlinear_arith)
                requires
                    x / cw >= cols,
                    cw > 0,
            ;
        }
    }
    assert(0 <= x / cw) by {
        lemma_fundamental_div_mod(x, cw);
        lemma_mod_pos_bound(x, cw);
        if x / cw < 0 {
            assert(cw * (x / cw) <= -cw) by (nonlinear_arith)
                requires
                    x / cw < 0,
                    cw > 0,
            ;
        }
    }
    let c = cell_at(x, y, cols, cw, ch);
    lemma_fundamental_div_mod_converse_mod(c, cols, y / ch, x / cw);
    lemma_fundamental_div_mod_converse_div(c, cols, y / ch, x / cw);
    lemma_fundamental_div_mod(i, cols);
    assert(cols * (i / cols) == (i / cols) * cols) by (nonlinear_arith);
}

proof fn lemma_backgrounds_upto(
    fill: Seq<u8>,
    sw: int,
    cols: int,
    rows: int,
    cw: int,
    ch: int,
    cells: Seq<GridCell>,
    glyphs: Seq<Option<Glyph>>,
    k: nat,
    x: int,
    y: int,
)
    requires
        sw > 0,
        cw > 0,
        ch > 0,
        cols > 0,
        cells.len() == rows * cols,
        glyphs.len() == cells.len(),
        forall|i: int| 0 <= i < glyphs.len() ==> #[trigger] glyphs[i] is None,
        cols * cw <= sw,
        0 <= x < cols * cw,
        0 <= y,
        4 * (y * sw + x) + 3 < fill.len(),
        k <= cells.len(),
    ensures
        spec_render_cells(fill, sw, cols, cw, ch, cells, glyphs, k).len() == fill.len(),
        forall|m: int|
            0 <= m < 4 ==> #[trigger] spec_render_cells(fill, sw, cols, cw, ch, cells, glyphs, k)[4
                * (y * sw + x) + m] == (if cell_at(x, y, cols, cw, ch) < k {
                bgra_byte(spec_resolve_color(cells[cell_at(x, y, cols, cw, ch)].bg, false), 255, m)
            } else {
                fill[4 * (y * sw + x) + m]
            }),
    decreases k,
{
    if k > 0 {
        let i = k - 1;
        lemma_backgrounds_upto(fill, sw, cols, rows, cw, ch, cells, glyphs, i as nat, x, y);
        let p = y * sw + x;
        assert(p >= 0) by (nonlinear_arith)
            requires
                y >= 0,
                sw > 0,
                x >= 0,
                p == y * sw + x,
        ;
        lemma_pixel_position(p, sw, x, y);
        lemma_cell_rectangle(i as int, x, y, cols, cw, ch);
        assert(glyphs[i as int] is None);
        assert((4 * p) / 4 == p && (4 * p + 1) / 4 == p && (4 * p + 2) / 4 == p && (4 * p + 3) / 4
            == p);
        assert((4 * p) % 4 == 0 && (4 * p + 1) % 4 == 1 && (4 * p + 2) % 4 == 2 && (4 * p + 3) % 4
            == 3);
    }
}

/// Law: the grid is laid out row-major from the top-left corner. When no
/// glyphs are drawn and the grid fits in the surface width, the pixel at
/// column `x < cols * cw`, row `y < rows * ch` shows, opaque, the background
/// colour of cell `(y / ch) * cols + x / cw`, the cell in grid row `y / ch` and
/// column `x / cw`.
pub proof fn lemma_render_places_cells(
    buf: Seq<u8>,
    sw: int,
    cols: int,
    rows: int,
    cw: int,
    ch: int,
    cells: Seq<GridCell>,
    glyphs: Seq<Option<Glyph>>,
    x: int,
    y: int,
)
    requires
        cw > 0,
        ch > 0,
        cells.len() == rows * cols,
        glyphs.len() == cells.len(),
        forall|i: int| 0 <= i < glyphs.len() ==> #[trigger] glyphs[i] is None,
        cols * cw <= sw,
        0 <= x < cols * cw,
        0 <= y < rows * ch,
        4 * (y * sw + x) + 3 < buf.len(),
    ensures
        ({
            let o = 4 * (y * sw + x);
            let r = spec_render(buf, sw, cols, cw, ch, cells, glyphs);
            let c = spec_resolve_color(cells[(y / ch) * cols + x / cw].bg, false);
            &&& 0 <= (y / ch) * cols + x / cw < cells.len()
            &&& r[o] == c.2
            &&& r[o + 1] == c.1
            &&& r[o + 2] == c.0
            &&& r[o + 3] == 255
        }),
{
    assert(cols > 0 && sw > 0) by (nonlinear_arith)
        requires
            0 <= x < cols * cw,
            cw > 0,
            cols * cw <= sw,
    ;
    lemma_div_interval(y, ch, y / ch);
    lemma_div_interval(x, cw, x / cw);
    lemma_cell_rectangle(0, x, y, cols, cw, ch);
    assert(0 <= y / ch < rows) by {
        lemma_fundamental_div_mod(y, ch);
        lemma_mod_pos_bound(y, ch);
        if y / ch >= rows {
            assert(ch * (y / ch) >= rows * ch) by (nonlinear_arith)
                requires
                    y / ch >= rows,
                    ch > 0,
            ;
        }
        if y / ch < 0 {
            assert(ch * (y / ch) <= -ch) by (nonlinear_arith)
                requires
                    y / ch < 0,
                    ch > 0,
            ;
        }
    }
    assert(0 <= x / cw < cols) by {
        lemma_fundamental_div_mod(x, cw);
        lemma_mod_pos_bound(x, cw);
        if x / cw >= cols {
            assert(cw * (x / cw) >= cols * cw) by (nonlinear_arith)
                requires
                    x / cw >= cols,
                    cw > 0,
            ;
        }
        if x / cw < 0 {
            assert(cw * (x / cw) <= -cw) by (nonlinear_arith)
                requires
                    x / cw < 0,
                    cw > 0,
            ;
        }
    }
    lemma_cell_index(y / ch, x / cw, cols, rows);
    let fill = spec_fill_pixels(buf, background_pixel());
    lemma_backgrounds_upto(fill, sw, cols, rows, cw, ch, cells, glyphs, cells.len(), x, y);
    let o = 4 * (y * sw + x);
    assert(0 <= o) by (nonlinear_arith)
        requires
            y >= 0,
            sw > 0,
            x >= 0,
            o == 4 * (y * sw + x),
    ;
    let r = spec_render(buf, sw, cols, cw, ch, cells, glyphs);
    assert(r[o + 0] == bgra_byte(spec_resolve_color(cells[cell_at(x, y, cols, cw, ch)].bg, false), 255, 0));
    assert(r[o + 1] == bgra_byte(spec_resolve_color(cells[cell_at(x, y, cols, cw, ch)].bg, false), 255, 1));
    assert(r[o + 2] == bgra_byte(spec_resolve_color(cells[cell_at(x, y, cols, cw, ch)].bg, false), 255, 2));
    assert(r[o + 3] == bgra_byte(spec_resolve_color(cells[cell_at(x, y, cols, cw, ch)].bg, false), 255, 3));
}


/// Law: a frame with no cells is the default background ("base", bytes
/// 46, 30, 30, 255) on every whole pixel; bytes of a trailing partial pixel are kept.
pub proof fn lemma_empty_grid_is_background(
    buf: Seq<u8>,
    sw: int,
    cols: int,
    cw: int,
    ch: int,
    glyphs: Seq<Option<Glyph>>,
    j: int,
)
    requires
        0 <= j < buf.len(),
    ensures
        ({
            let r = spec_render(buf, sw, cols, cw, ch, Seq::<GridCell>::empty(), glyphs);
            &&& r.len() == buf.len()
            &&& j < buf.len() - buf.len() % 4 ==> r[j] == (if j % 4 == 0 {
                46u8
            } else if j % 4 == 3 {
                255u8
            } else {
                30u8
            })
            &&& j >= buf.len() - buf.len() % 4 ==> r[j] == buf[j]
        }),
{
}

} // verus!
