//! What painting does to single pixels of a frame.

use super::color;
use super::color::{Rgba, YCbCr};
use super::fill_rect;
use super::frame;
use super::frame::{Picture, Rect};
use super::glyph_blit;
use crate::glyphs::GlyphBitmap;
use vstd::prelude::*;

verus! {

/// A picture whose planes hold every row.
pub open spec fn complete(p: Picture) -> bool {
    &&& p.width > 0
    &&& p.height > 0
    &&& p.width % 2 == 0
    &&& p.height % 2 == 0
    &&& p.y_stride >= p.width
    &&& p.uv_stride >= p.width
    &&& p.y.len() >= p.height * p.y_stride
    &&& p.uv.len() >= (p.height / 2) * p.uv_stride
}

/// The luma of a pixel.
pub open spec fn luma(p: Picture, px: int, py: int) -> u8 {
    p.y[py * p.y_stride + px]
}

/// The blue difference of the block that holds a pixel.
pub open spec fn blue(p: Picture, px: int, py: int) -> u8 {
    p.uv[(py / 2) * p.uv_stride + 2 * (px / 2)]
}

/// The red difference of the block that holds a pixel.
pub open spec fn red(p: Picture, px: int, py: int) -> u8 {
    p.uv[(py / 2) * p.uv_stride + 2 * (px / 2) + 1]
}

/// A byte is the whole number nearest to a mean of two others, the second of which
/// has so many of 255 shares.
pub open spec fn mixed(after: u8, before: u8, toward: u8, shares: int) -> bool {
    -127 <= 255 * after - (before * (255 - shares) + toward * shares) <= 127
}

/// A pixel lies inside of a rectangle.
pub open spec fn inside(r: Rect, px: int, py: int) -> bool {
    r.x <= px && px < r.x + r.width && r.y <= py && py < r.y + r.height
}

/// Where a pixel's bytes lie.
pub(crate) proof fn lemma_places(p: Picture, px: int, py: int)
    requires
        complete(p),
        0 <= px < p.width,
        0 <= py < p.height,
    ensures
        ({
            let i = py * p.y_stride + px;
            &&& 0 <= i < p.y.len()
            &&& i % p.y_stride == px
            &&& i / p.y_stride == py
        }),
        ({
            let i = (py / 2) * p.uv_stride + 2 * (px / 2);
            &&& 0 <= i
            &&& i + 1 < p.uv.len()
            &&& i % p.uv_stride == 2 * (px / 2)
            &&& i / p.uv_stride == py / 2
            &&& (i + 1) % p.uv_stride == 2 * (px / 2) + 1
            &&& (i + 1) / p.uv_stride == py / 2
        }),
{
    let (ys, us, cy) = (p.y_stride, p.uv_stride, py / 2);
    assert((py + 1) * ys == py * ys + ys) by (nonlinear_arith);
    assert((py + 1) * ys <= p.height * ys) by (nonlinear_arith)
        requires
            py + 1 <= p.height,
            ys >= 0,
    ;
    assert(0 <= py * ys) by (nonlinear_arith)
        requires
            py >= 0,
            ys >= 0,
    ;
    frame::lemma_row_of_index(py * ys + px, ys, py);
    assert((cy + 1) * us == cy * us + us) by (nonlinear_arith);
    assert((cy + 1) * us <= (p.height / 2) * us) by (nonlinear_arith)
        requires
            cy + 1 <= p.height / 2,
            us >= 0,
    ;
    assert(0 <= cy * us) by (nonlinear_arith)
        requires
            cy >= 0,
            us >= 0,
    ;
    frame::lemma_row_of_index(cy * us + 2 * (px / 2), us, cy);
    frame::lemma_row_of_index(cy * us + 2 * (px / 2) + 1, us, cy);
}

/// A blend is a nearest mean.
proof fn lemma_mixed(before: u8, toward: u8, shares: int)
    requires
        0 <= shares <= 255,
    ensures
        0 <= color::blend(before as int, toward as int, shares) <= 255,
        mixed(
            color::blend(before as int, toward as int, shares) as u8,
            before,
            toward,
            shares,
        ),
{
    color::law_blend_nearest(before, toward, shares as u8);
    color::law_blend_between(before, toward, shares as u8);
}

/// A fill mixes the colour's luma into every pixel of its rectangle and into no
/// other, and the colour's blue and red differences into the block of every pixel of
/// its rectangle, each into its own. A block without a pixel in the rectangle keeps
/// its chroma.
pub proof fn law_fill_paints_its_pixels(
    before: Picture,
    rect: Rect,
    c: YCbCr,
    alpha: u8,
    px: int,
    py: int,
)
    requires
        complete(before),
        0 <= px < before.width,
        0 <= py < before.height,
    ensures
        ({
            let after = fill_rect::filled(before, rect, c, alpha);
            let (bx, by) = (2 * (px / 2), 2 * (py / 2));
            &&& inside(rect, px, py) ==> {
                &&& mixed(luma(after, px, py), luma(before, px, py), c.y, alpha as int)
                &&& mixed(blue(after, px, py), blue(before, px, py), c.cb, alpha as int)
                &&& mixed(red(after, px, py), red(before, px, py), c.cr, alpha as int)
            }
            &&& !inside(rect, px, py) ==> luma(after, px, py) == luma(before, px, py)
            &&& !inside(rect, bx, by) && !inside(rect, bx + 1, by) && !inside(rect, bx, by + 1)
                && !inside(rect, bx + 1, by + 1) ==> blue(after, px, py) == blue(before, px, py)
                && red(after, px, py) == red(before, px, py)
        }),
{
    lemma_places(before, px, py);
    lemma_mixed(luma(before, px, py), c.y, alpha as int);
    lemma_mixed(blue(before, px, py), c.cb, alpha as int);
    lemma_mixed(red(before, px, py), c.cr, alpha as int);
}

/// How much of a pixel a glyph covers that is drawn with its top left corner at
/// `(x, y)`.
pub open spec fn cover(g: &GlyphBitmap, x: int, y: int, px: int, py: int) -> int {
    if x <= px < x + g.width && y <= py < y + g.height {
        g.alpha@[(py - y) * g.width + (px - x)] as int
    } else {
        0
    }
}

/// The share of a colour that a glyph lays over a pixel: what it covers of the pixel,
/// times how opaque the colour is, to a whole number, rounded up from 127 of 255 on.
pub open spec fn share_of(shares: int, covered: int, alpha: u8) -> bool {
    -126 <= 255 * shares - covered * alpha <= 128 && 0 <= shares <= 255
}

proof fn lemma_share(covered: int, alpha: u8)
    requires
        0 <= covered <= 255,
    ensures
        share_of(glyph_blit::weight(covered, alpha as int), covered, alpha),
{
    assert(0 <= covered * alpha <= 65025) by (nonlinear_arith)
        requires
            0 <= covered <= 255,
            0 <= alpha <= 255,
    ;
}

/// A glyph mixes the colour into each pixel of the frame as far as it covers the
/// pixel, and into each block as far as it covers the four pixels of the block on
/// the whole.
pub proof fn law_glyph_paints_its_pixels(
    before: Picture,
    g: &GlyphBitmap,
    x: int,
    y: int,
    fg: Rgba,
    px: int,
    py: int,
)
    requires
        complete(before),
        g.wf(),
        0 < g.width <= i32::MAX,
        0 < g.height <= i32::MAX,
        0 <= px < before.width,
        0 <= py < before.height,
    ensures
        ({
            let after = glyph_blit::blitted(before, g, x, y, fg);
            let c = color::ycbcr_of(fg.r, fg.g, fg.b);
            let (bx, by) = (2 * (px / 2), 2 * (py / 2));
            let on_block = (cover(g, x, y, bx, by) + cover(g, x, y, bx + 1, by) + cover(
                g,
                x,
                y,
                bx,
                by + 1,
            ) + cover(g, x, y, bx + 1, by + 1)) / 4;
            &&& exists|s: int| #[trigger]
                share_of(s, cover(g, x, y, px, py), fg.a) && mixed(
                    luma(after, px, py),
                    luma(before, px, py),
                    c.y,
                    s,
                )
            &&& exists|s: int| #[trigger]
                share_of(s, on_block, fg.a) && mixed(
                    blue(after, px, py),
                    blue(before, px, py),
                    c.cb,
                    s,
                ) && mixed(red(after, px, py), red(before, px, py), c.cr, s)
        }),
{
    let c = color::ycbcr_of(fg.r, fg.g, fg.b);
    lemma_places(before, px, py);
    let (cx, cy) = (px / 2, py / 2);
    let (bx, by) = (2 * cx, 2 * cy);
    assert(g.height * g.width > 0) by (nonlinear_arith)
        requires
            g.height > 0,
            g.width > 0,
    ;
    let m = g.coverage(px - x, py - y);
    let on_block = glyph_blit::block_coverage(g, x, y, cx, cy);
    let s = glyph_blit::weight(m, fg.a as int);
    let t = glyph_blit::weight(on_block, fg.a as int);
    lemma_share(m, fg.a);
    lemma_share(on_block, fg.a);
    lemma_mixed(luma(before, px, py), c.y, s);
    lemma_mixed(blue(before, px, py), c.cb, t);
    lemma_mixed(red(before, px, py), c.cr, t);
    assert(m == cover(g, x, y, px, py));
    assert(2 * cx + 1 - x == bx + 1 - x && 2 * cy + 1 - y == by + 1 - y);
    assert(g.coverage(bx - x, by - y) == cover(g, x, y, bx, by));
    assert(g.coverage(bx + 1 - x, by - y) == cover(g, x, y, bx + 1, by));
    assert(g.coverage(bx - x, by + 1 - y) == cover(g, x, y, bx, by + 1));
    assert(g.coverage(bx + 1 - x, by + 1 - y) == cover(g, x, y, bx + 1, by + 1));
}

/// Painting leaves the size and the layout of a picture, and all bytes beyond its
/// pixels.
pub proof fn law_painting_keeps_padding(
    before: Picture,
    rect: Rect,
    c: YCbCr,
    alpha: u8,
    g: &GlyphBitmap,
    x: int,
    y: int,
    fg: Rgba,
    i: int,
)
    requires
        complete(before),
    ensures
        ({
            let f = fill_rect::filled(before, rect, c, alpha);
            let b = glyph_blit::blitted(before, g, x, y, fg);
            &&& f.width == before.width && f.height == before.height
            &&& f.y_stride == before.y_stride && f.uv_stride == before.uv_stride
            &&& b.width == before.width && b.height == before.height
            &&& b.y_stride == before.y_stride && b.uv_stride == before.uv_stride
            &&& f.y.len() == before.y.len() && f.uv.len() == before.uv.len()
            &&& b.y.len() == before.y.len() && b.uv.len() == before.uv.len()
            &&& 0 <= i < before.y.len() && (i % before.y_stride >= before.width || i
                / before.y_stride >= before.height) ==> f.y[i] == before.y[i] && b.y[i]
                == before.y[i]
            &&& 0 <= i < before.uv.len() && (i % before.uv_stride >= before.width || i
                / before.uv_stride >= before.height / 2) ==> f.uv[i] == before.uv[i] && b.uv[i]
                == before.uv[i]
        }),
{
}

} // verus!
