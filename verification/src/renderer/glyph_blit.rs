//! Compositing of glyph masks into NV12 planes.
//!
//! Luma is blended pixel by pixel. A chroma pair is blended once per 2×2
//! block, with the mean of the four masks in the block: a mean gives
//! anti-aliased edges a softer chroma transition than a maximum would.

use vstd::prelude::*;
use crate::glyphs::GlyphBitmap;
use super::color;
use super::color::{blend_u8, Rgba, YCbCr};
use super::frame;
use super::frame::{ClippedRect, Nv12FrameMut, Picture, Rect};

verus! {

/// Blend weight of a mask value under a foreground alpha:
/// `(mask * alpha + 128) / 255`.
pub open spec fn weight(mask: int, alpha: int) -> int {
    (mask * alpha + 128) / 255
}

fn scale_alpha(mask: u8, color_a: u8) -> (w: u8)
    ensures
        w == weight(mask as int, color_a as int),
{
    assert(0 <= mask * color_a <= 255 * 255) by (nonlinear_arith)
        requires
            mask <= 255,
            color_a <= 255,
    ;
    let acc: u32 = (mask as u32) * (color_a as u32);
    color::div_255(acc + 128) as u8
}

/// The glyph can be placed at all: it covers something, and its sides are
/// pixel dimensions.
pub open spec fn drawable(bitmap: &GlyphBitmap) -> bool {
    &&& !bitmap.spec_is_empty()
    &&& bitmap.width <= i32::MAX
    &&& bitmap.height <= i32::MAX
}

/// Mean mask over the block at `(cx, cy)` for a glyph anchored at `(x, y)`.
pub open spec fn block_coverage(bitmap: &GlyphBitmap, x: int, y: int, cx: int, cy: int) -> int {
    (bitmap.coverage(2 * cx - x, 2 * cy - y) + bitmap.coverage(2 * cx + 1 - x, 2 * cy - y)
        + bitmap.coverage(2 * cx - x, 2 * cy + 1 - y) + bitmap.coverage(
        2 * cx + 1 - x,
        2 * cy + 1 - y,
    )) / 4
}

/// Luma plane after a glyph: each pixel of the frame is blended toward `fg`
/// with the weight of the mask over it.
pub open spec fn luma_after(
    plane: Seq<u8>,
    stride: int,
    width: int,
    height: int,
    bitmap: &GlyphBitmap,
    x: int,
    y: int,
    fg: u8,
    alpha: u8,
) -> Seq<u8> {
    frame::repaint(
        plane,
        stride,
        |col: int, row: int, b: u8|
            if col < width && row < height {
                color::blend(
                    b as int,
                    fg as int,
                    weight(bitmap.coverage(col - x, row - y), alpha as int),
                ) as u8
            } else {
                b
            },
    )
}

/// Chroma plane after a glyph: each pair of the frame is blended toward
/// `(cb, cr)` with the weight of the mean mask over its block.
pub open spec fn chroma_after(
    plane: Seq<u8>,
    stride: int,
    width: int,
    height: int,
    bitmap: &GlyphBitmap,
    x: int,
    y: int,
    cb: u8,
    cr: u8,
    alpha: u8,
) -> Seq<u8> {
    frame::repaint(
        plane,
        stride,
        |col: int, row: int, b: u8|
            if col < width && row < height / 2 {
                color::blend(
                    b as int,
                    if col % 2 == 0 {
                        cb as int
                    } else {
                        cr as int
                    },
                    weight(block_coverage(bitmap, x, y, col / 2, row), alpha as int),
                ) as u8
            } else {
                b
            },
    )
}

/// A picture with the glyph drawn in `fg` at the anchor `(x, y)`. A glyph
/// that covers nothing leaves the picture as it was.
pub open spec fn blitted(
    before: Picture,
    bitmap: &GlyphBitmap,
    x: int,
    y: int,
    fg: Rgba,
) -> Picture {
    let c = color::ycbcr_of(fg.r, fg.g, fg.b);
    if drawable(bitmap) {
        Picture {
            y: luma_after(
                before.y,
                before.y_stride,
                before.width,
                before.height,
                bitmap,
                x,
                y,
                c.y,
                fg.a,
            ),
            uv: chroma_after(
                before.uv,
                before.uv_stride,
                before.width,
                before.height,
                bitmap,
                x,
                y,
                c.cb,
                c.cr,
                fg.a,
            ),
            ..before
        }
    } else {
        before
    }
}

/// Reading a mask: the value at a bitmap position, 0 outside.
fn mask_at(bitmap: &GlyphBitmap, bx: i64, by: i64) -> (m: u8)
    requires
        bitmap.wf(),
    ensures
        m == bitmap.coverage(bx as int, by as int),
{
    if bx < 0 || by < 0 || bx >= bitmap.width as i64 || by >= bitmap.height as i64 {
        return 0;
    }
    let len: usize = bitmap.alpha.len();
    proof {
        let w = bitmap.width as int;
        frame::lemma_position_in_plane(len as int, w, bitmap.height as int, by as int);
    }
    bitmap.alpha[by as usize * bitmap.width as usize + bx as usize]
}

proof fn lemma_zero_coverage(mask: int, alpha: int, b: u8, fg: u8)
    requires
        mask == 0 || alpha == 0,
    ensures
        color::blend(b as int, fg as int, weight(mask, alpha)) == b,
{
    assert(mask * alpha == 0) by (nonlinear_arith)
        requires
            mask == 0 || alpha == 0,
    ;
    color::law_blend_ends(b, fg);
}

fn blit_luma(
    f: &mut Nv12FrameMut<'_>,
    bitmap: &GlyphBitmap,
    rect: Rect,
    clipped: ClippedRect,
    fg: u8,
    alpha: u8,
)
    requires
        old(f).wf(),
        bitmap.wf(),
        rect.width == bitmap.width,
        rect.height == bitmap.height,
        clipped.within(old(f).width as int, old(f).height as int),
        forall|px: int, py: int| #[trigger]
            clipped.contains(px, py) <==> rect.touches(
                old(f).width as int,
                old(f).height as int,
                px,
                py,
            ),
    ensures
        final(f).same_layout(old(f)),
        // The frame still borrows the same planes.
        final(final(f).y_plane)@ == final(old(f).y_plane)@,
        final(final(f).uv_plane)@ == final(old(f).uv_plane)@,
        final(f).uv_plane@ == old(f).uv_plane@,
        final(f).y_plane@ == luma_after(
            old(f).y_plane@,
            old(f).y_stride as int,
            old(f).width as int,
            old(f).height as int,
            bitmap,
            rect.x as int,
            rect.y as int,
            fg,
            alpha,
        ),
{
    let stride: usize = f.y_stride;
    let len: usize = f.y_plane.len();
    let x: i64 = rect.x as i64;
    let y: i64 = rect.y as i64;
    let right: u32 = clipped.x + clipped.width;
    let bottom: u32 = clipped.y + clipped.height;
    let ghost w = f.width as int;
    let ghost h = f.height as int;
    let ghost before = f.y_plane@;
    let ghost after = luma_after(before, stride as int, w, h, bitmap, x as int, y as int, fg, alpha);
    let mut row: u32 = clipped.y;
    proof {
        assert forall|i: int| 0 <= i < before.len() && i < row * stride implies before[i]
            == after[i] by {
            frame::lemma_index_before_row(i, stride as int, row as int);
            lemma_luma_outside(before, stride as int, w, h, bitmap, rect, clipped, fg, alpha, i);
        }
    }
    while row < bottom
        invariant
            clipped.y <= row <= bottom,
            bottom == clipped.y + clipped.height,
            right == clipped.x + clipped.width,
            x == rect.x,
            y == rect.y,
            stride == f.y_stride,
            f.wf(),
            final(f.y_plane)@ == final(old(f).y_plane)@,
            final(f.uv_plane)@ == final(old(f).uv_plane)@,
            bitmap.wf(),
            rect.width == bitmap.width,
            rect.height == bitmap.height,
            f.same_layout(old(f)),
            f.uv_plane@ == old(f).uv_plane@,
            w == f.width,
            h == f.height,
            clipped.within(w, h),
            forall|px: int, py: int| #[trigger]
                clipped.contains(px, py) <==> rect.touches(w, h, px, py),
            f.y_plane@.len() == before.len() == len,
            after == luma_after(
                before,
                stride as int,
                w,
                h,
                bitmap,
                x as int,
                y as int,
                fg,
                alpha,
            ),
            forall|i: int|
                0 <= i < before.len() ==> #[trigger] f.y_plane@[i] == (if i < row * stride {
                    after[i]
                } else {
                    before[i]
                }),
        decreases bottom - row,
    {
        proof {
            frame::lemma_position_in_plane(len as int, stride as int, h, row as int);
        }
        let base: usize = row as usize * stride;
        let mut col: u32 = clipped.x;
        proof {
            assert forall|i: int| base <= i < base + col implies before[i] == after[i] by {
                frame::lemma_row_of_index(i, stride as int, row as int);
                lemma_luma_outside(before, stride as int, w, h, bitmap, rect, clipped, fg, alpha, i);
            }
        }
        while col < right
            invariant
                clipped.x <= col <= right,
                right == clipped.x + clipped.width,
                clipped.y <= row < bottom,
                bottom == clipped.y + clipped.height,
                base == row * stride,
                base + stride <= len,
                (row + 1) * stride == base + stride,
                x == rect.x,
                y == rect.y,
                stride == f.y_stride,
                f.wf(),
            final(f.y_plane)@ == final(old(f).y_plane)@,
            final(f.uv_plane)@ == final(old(f).uv_plane)@,
                bitmap.wf(),
                f.same_layout(old(f)),
                f.uv_plane@ == old(f).uv_plane@,
                w == f.width,
                h == f.height,
                clipped.within(w, h),
                f.y_plane@.len() == before.len() == len,
                after == luma_after(
                    before,
                    stride as int,
                    w,
                    h,
                    bitmap,
                    x as int,
                    y as int,
                    fg,
                    alpha,
                ),
                forall|i: int|
                    0 <= i < before.len() ==> #[trigger] f.y_plane@[i] == (if i < base + col {
                        after[i]
                    } else {
                        before[i]
                    }),
            decreases right - col,
        {
            let mask: u8 = mask_at(bitmap, col as i64 - x, row as i64 - y);
            let off: usize = base + col as usize;
            proof {
                frame::lemma_row_of_index(off as int, stride as int, row as int);
                lemma_zero_coverage(0, alpha as int, before[off as int], fg);
            }
            if mask != 0 {
                let weight: u8 = scale_alpha(mask, alpha);
                let b: u8 = f.y_plane[off];
                f.y_plane[off] = blend_u8(b, fg, weight);
            }
            col = col + 1;
        }
        proof {
            assert forall|i: int| 0 <= i < before.len() implies #[trigger] f.y_plane@[i] == (if i
                < (row + 1) * stride {
                after[i]
            } else {
                before[i]
            }) by {
                if base + right <= i < base + stride {
                    frame::lemma_row_of_index(i, stride as int, row as int);
                    lemma_luma_outside(
                        before,
                        stride as int,
                        w,
                        h,
                        bitmap,
                        rect,
                        clipped,
                        fg,
                        alpha,
                        i,
                    );
                }
            }
        }
        row = row + 1;
    }
    proof {
        assert forall|i: int| 0 <= i < before.len() implies #[trigger] f.y_plane@[i]
            == after[i] by {
            if i >= row * stride {
                frame::lemma_index_before_row(i, stride as int, row as int);
                lemma_luma_outside(before, stride as int, w, h, bitmap, rect, clipped, fg, alpha, i);
            }
        }
        assert(f.y_plane@ =~= after);
    }
}

/// A byte whose position the clipped glyph does not contain stays.
proof fn lemma_luma_outside(
    before: Seq<u8>,
    stride: int,
    w: int,
    h: int,
    bitmap: &GlyphBitmap,
    rect: Rect,
    clipped: ClippedRect,
    fg: u8,
    alpha: u8,
    i: int,
)
    requires
        stride > 0,
        0 <= i < before.len(),
        rect.width == bitmap.width,
        rect.height == bitmap.height,
        0 <= i % stride,
        0 <= i / stride,
        forall|px: int, py: int| #[trigger] clipped.contains(px, py) <==> rect.touches(w, h, px, py),
        !clipped.contains(i % stride, i / stride),
    ensures
        luma_after(before, stride, w, h, bitmap, rect.x as int, rect.y as int, fg, alpha)[i]
            == before[i],
{
    let col = i % stride;
    let row = i / stride;
    assert(!rect.touches(w, h, col, row));
    if col < w && row < h {
        assert(bitmap.coverage(col - rect.x, row - rect.y) == 0);
        lemma_zero_coverage(0, alpha as int, before[i], fg);
    }
}

/// The mean mask over a block, as the blit computes it.
fn mean_mask(bitmap: &GlyphBitmap, x: i64, y: i64, cx: u32, cy: u32) -> (m: u8)
    requires
        bitmap.wf(),
        -0x8000_0000 <= x <= 0x7fff_ffff,
        -0x8000_0000 <= y <= 0x7fff_ffff,
    ensures
        m == block_coverage(bitmap, x as int, y as int, cx as int, cy as int),
{
    let bx: i64 = 2 * (cx as i64) - x;
    let by: i64 = 2 * (cy as i64) - y;
    let a: u32 = mask_at(bitmap, bx, by) as u32;
    let b: u32 = mask_at(bitmap, bx + 1, by) as u32;
    let c: u32 = mask_at(bitmap, bx, by + 1) as u32;
    let d: u32 = mask_at(bitmap, bx + 1, by + 1) as u32;
    ((a + b + c + d) / 4) as u8
}

/// A byte of a pair whose block the clipped glyph does not touch stays.
proof fn lemma_chroma_outside(
    before: Seq<u8>,
    stride: int,
    w: int,
    h: int,
    bitmap: &GlyphBitmap,
    rect: Rect,
    clipped: ClippedRect,
    c: YCbCr,
    alpha: u8,
    i: int,
)
    requires
        stride > 0,
        0 <= i < before.len(),
        w % 2 == 0,
        h % 2 == 0,
        rect.width == bitmap.width,
        rect.height == bitmap.height,
        0 <= i % stride,
        0 <= i / stride,
        forall|px: int, py: int| #[trigger] clipped.contains(px, py) <==> rect.touches(w, h, px, py),
        !(clipped.x as int / 2 <= i % stride / 2 < (clipped.x + clipped.width + 1) / 2
            && clipped.y as int / 2 <= i / stride < (clipped.y + clipped.height + 1) / 2),
    ensures
        chroma_after(
            before,
            stride,
            w,
            h,
            bitmap,
            rect.x as int,
            rect.y as int,
            c.cb,
            c.cr,
            alpha,
        )[i] == before[i],
{
    let col = i % stride;
    let row = i / stride;
    if col < w && row < h / 2 {
        let px = 2 * (col / 2);
        let py = 2 * row;
        assert(!clipped.contains(px, py));
        assert(!clipped.contains(px + 1, py));
        assert(!clipped.contains(px, py + 1));
        assert(!clipped.contains(px + 1, py + 1));
        assert(bitmap.coverage(px - rect.x, py - rect.y) == 0);
        assert(bitmap.coverage(px + 1 - rect.x, py - rect.y) == 0);
        assert(bitmap.coverage(px - rect.x, py + 1 - rect.y) == 0);
        assert(bitmap.coverage(px + 1 - rect.x, py + 1 - rect.y) == 0);
        assert(block_coverage(bitmap, rect.x as int, rect.y as int, col / 2, row) == 0);
        lemma_zero_coverage(0, alpha as int, before[i], c.cb);
        lemma_zero_coverage(0, alpha as int, before[i], c.cr);
    }
}

fn blit_chroma(
    f: &mut Nv12FrameMut<'_>,
    bitmap: &GlyphBitmap,
    rect: Rect,
    clipped: ClippedRect,
    c: YCbCr,
    alpha: u8,
)
    requires
        old(f).wf(),
        bitmap.wf(),
        rect.width == bitmap.width,
        rect.height == bitmap.height,
        clipped.within(old(f).width as int, old(f).height as int),
        forall|px: int, py: int| #[trigger]
            clipped.contains(px, py) <==> rect.touches(
                old(f).width as int,
                old(f).height as int,
                px,
                py,
            ),
    ensures
        final(f).same_layout(old(f)),
        // The frame still borrows the same planes.
        final(final(f).y_plane)@ == final(old(f).y_plane)@,
        final(final(f).uv_plane)@ == final(old(f).uv_plane)@,
        final(f).y_plane@ == old(f).y_plane@,
        final(f).uv_plane@ == chroma_after(
            old(f).uv_plane@,
            old(f).uv_stride as int,
            old(f).width as int,
            old(f).height as int,
            bitmap,
            rect.x as int,
            rect.y as int,
            c.cb,
            c.cr,
            alpha,
        ),
{
    let stride: usize = f.uv_stride;
    let len: usize = f.uv_plane.len();
    let x: i64 = rect.x as i64;
    let y: i64 = rect.y as i64;
    let (cx0, cy0, cx1, cy1) = super::fill_rect::covered_chroma_blocks(&clipped, f.width, f.height);
    let ghost w = f.width as int;
    let ghost h = f.height as int;
    let ghost before = f.uv_plane@;
    let ghost after = chroma_after(
        before,
        stride as int,
        w,
        h,
        bitmap,
        x as int,
        y as int,
        c.cb,
        c.cr,
        alpha,
    );
    let mut cy: u32 = cy0;
    proof {
        assert forall|i: int| 0 <= i < before.len() && i < cy * stride implies before[i]
            == after[i] by {
            frame::lemma_index_before_row(i, stride as int, cy as int);
            lemma_chroma_outside(before, stride as int, w, h, bitmap, rect, clipped, c, alpha, i);
        }
    }
    while cy < cy1
        invariant
            cy0 <= cy <= cy1 <= h / 2,
            cx0 < cx1 <= w / 2,
            cx0 == clipped.x / 2,
            cy0 == clipped.y / 2,
            cx1 == (clipped.x + clipped.width + 1) / 2,
            cy1 == (clipped.y + clipped.height + 1) / 2,
            x == rect.x,
            y == rect.y,
            stride == f.uv_stride,
            f.wf(),
            final(f.y_plane)@ == final(old(f).y_plane)@,
            final(f.uv_plane)@ == final(old(f).uv_plane)@,
            bitmap.wf(),
            rect.width == bitmap.width,
            rect.height == bitmap.height,
            f.same_layout(old(f)),
            f.y_plane@ == old(f).y_plane@,
            w == f.width,
            h == f.height,
            clipped.within(w, h),
            forall|px: int, py: int| #[trigger]
                clipped.contains(px, py) <==> rect.touches(w, h, px, py),
            f.uv_plane@.len() == before.len() == len,
            after == chroma_after(
                before,
                stride as int,
                w,
                h,
                bitmap,
                x as int,
                y as int,
                c.cb,
                c.cr,
                alpha,
            ),
            forall|i: int|
                0 <= i < before.len() ==> #[trigger] f.uv_plane@[i] == (if i < cy * stride {
                    after[i]
                } else {
                    before[i]
                }),
        decreases cy1 - cy,
    {
        proof {
            frame::lemma_position_in_plane(len as int, stride as int, h / 2, cy as int);
        }
        let base: usize = cy as usize * stride;
        let mut cx: u32 = cx0;
        proof {
            assert forall|i: int| base <= i < base + 2 * cx implies before[i] == after[i] by {
                frame::lemma_row_of_index(i, stride as int, cy as int);
                lemma_chroma_outside(
                    before,
                    stride as int,
                    w,
                    h,
                    bitmap,
                    rect,
                    clipped,
                    c,
                    alpha,
                    i,
                );
            }
        }
        while cx < cx1
            invariant
                cx0 <= cx <= cx1 <= w / 2,
                cy0 <= cy < cy1 <= h / 2,
                base == cy * stride,
                base + stride <= len,
                (cy + 1) * stride == base + stride,
                x == rect.x,
                y == rect.y,
                stride == f.uv_stride,
                f.wf(),
            final(f.y_plane)@ == final(old(f).y_plane)@,
            final(f.uv_plane)@ == final(old(f).uv_plane)@,
                bitmap.wf(),
                f.same_layout(old(f)),
                f.y_plane@ == old(f).y_plane@,
                w == f.width,
                h == f.height,
                f.uv_plane@.len() == before.len() == len,
                after == chroma_after(
                    before,
                    stride as int,
                    w,
                    h,
                    bitmap,
                    x as int,
                    y as int,
                    c.cb,
                    c.cr,
                    alpha,
                ),
                forall|i: int|
                    0 <= i < before.len() ==> #[trigger] f.uv_plane@[i] == (if i < base + 2 * cx {
                        after[i]
                    } else {
                        before[i]
                    }),
            decreases cx1 - cx,
        {
            let mask: u8 = mean_mask(bitmap, x, y, cx, cy);
            let off: usize = base + 2 * (cx as usize);
            proof {
                frame::lemma_row_of_index(off as int, stride as int, cy as int);
                frame::lemma_row_of_index(off + 1, stride as int, cy as int);
                lemma_zero_coverage(0, alpha as int, before[off as int], c.cb);
                lemma_zero_coverage(0, alpha as int, before[off + 1], c.cr);
            }
            if mask != 0 {
                let weight: u8 = scale_alpha(mask, alpha);
                let u: u8 = f.uv_plane[off];
                let v: u8 = f.uv_plane[off + 1];
                f.uv_plane[off] = blend_u8(u, c.cb, weight);
                f.uv_plane[off + 1] = blend_u8(v, c.cr, weight);
            }
            cx = cx + 1;
        }
        proof {
            assert forall|i: int| 0 <= i < before.len() implies #[trigger] f.uv_plane@[i] == (if i
                < (cy + 1) * stride {
                after[i]
            } else {
                before[i]
            }) by {
                if base + 2 * cx1 <= i < base + stride {
                    frame::lemma_row_of_index(i, stride as int, cy as int);
                    lemma_chroma_outside(
                        before,
                        stride as int,
                        w,
                        h,
                        bitmap,
                        rect,
                        clipped,
                        c,
                        alpha,
                        i,
                    );
                }
            }
        }
        cy = cy + 1;
    }
    proof {
        assert forall|i: int| 0 <= i < before.len() implies #[trigger] f.uv_plane@[i]
            == after[i] by {
            if i >= cy * stride {
                frame::lemma_index_before_row(i, stride as int, cy as int);
                lemma_chroma_outside(before, stride as int, w, h, bitmap, rect, clipped, c, alpha, i);
            }
        }
        assert(f.uv_plane@ =~= after);
    }
}

/// A glyph that misses the frame, or a transparent foreground, changes
/// nothing.
pub proof fn law_invisible_blit(
    before: Picture,
    bitmap: &GlyphBitmap,
    x: int,
    y: int,
    fg: Rgba,
)
    requires
        before.width % 2 == 0,
        before.height % 2 == 0,
        before.y_stride > 0,
        before.uv_stride > 0,
        fg.a == 0 || forall|px: int, py: int|
            0 <= px < before.width && 0 <= py < before.height ==> #[trigger] bitmap.coverage(
                px - x,
                py - y,
            ) == 0,
    ensures
        blitted(before, bitmap, x, y, fg) == before,
{
    let c = color::ycbcr_of(fg.r, fg.g, fg.b);
    let w = before.width;
    let h = before.height;
    let ys = before.y_stride;
    let us = before.uv_stride;
    let l = luma_after(before.y, ys, w, h, bitmap, x, y, c.y, fg.a);
    assert forall|i: int| 0 <= i < l.len() implies l[i] == before.y[i] by {
        frame::lemma_index_before_row(i, ys, 0);
        let m = bitmap.coverage(i % ys - x, i / ys - y);
        if i % ys < w && i / ys < h {
            lemma_zero_coverage(m, fg.a as int, before.y[i], c.y);
        }
    }
    assert(l =~= before.y);
    let u = chroma_after(before.uv, us, w, h, bitmap, x, y, c.cb, c.cr, fg.a);
    assert forall|i: int| 0 <= i < u.len() implies u[i] == before.uv[i] by {
        frame::lemma_index_before_row(i, us, 0);
        let cx = i % us / 2;
        let cy = i / us;
        if i % us < w && cy < h / 2 {
            if fg.a != 0 {
                assert(bitmap.coverage(2 * cx - x, 2 * cy - y) == 0);
                assert(bitmap.coverage((2 * cx + 1) - x, 2 * cy - y) == 0);
                assert(bitmap.coverage(2 * cx - x, (2 * cy + 1) - y) == 0);
                assert(bitmap.coverage((2 * cx + 1) - x, (2 * cy + 1) - y) == 0);
            }
            let m = block_coverage(bitmap, x, y, cx, cy);
            lemma_zero_coverage(m, fg.a as int, before.uv[i], c.cb);
            lemma_zero_coverage(m, fg.a as int, before.uv[i], c.cr);
        }
    }
    assert(u =~= before.uv);
}

/// Draw `bitmap` with its top-left corner at `(x, y)`. `color.a` scales the
/// mask: a transparent colour draws nothing, an opaque one uses the mask as
/// it is.
pub fn blit_glyph(frame: &mut Nv12FrameMut<'_>, bitmap: &GlyphBitmap, x: i32, y: i32, color: Rgba)
    requires
        old(frame).wf(),
        bitmap.wf(),
    ensures
        final(frame).wf(),
        // The frame still borrows the same planes.
        final(final(frame).y_plane)@ == final(old(frame).y_plane)@,
        final(final(frame).uv_plane)@ == final(old(frame).uv_plane)@,
        final(frame)@ == blitted(old(frame)@, bitmap, x as int, y as int, color),
{
    if bitmap.is_empty() || bitmap.width > 0x7fff_ffff || bitmap.height > 0x7fff_ffff {
        return;
    }
    if color.a == 0 {
        proof {
            law_invisible_blit(frame@, bitmap, x as int, y as int, color);
        }
        return;
    }
    let rect = Rect { x, y, width: bitmap.width as i32, height: bitmap.height as i32 };
    match rect.clip_to_frame(frame.width, frame.height) {
        None => {
            proof {
                assert forall|px: int, py: int|
                    0 <= px < frame.width && 0 <= py < frame.height implies #[trigger] bitmap.coverage(
                    px - x,
                    py - y,
                ) == 0 by {
                    assert(!rect.touches(frame.width as int, frame.height as int, px, py));
                }
                law_invisible_blit(frame@, bitmap, x as int, y as int, color);
            }
        },
        Some(clipped) => {
            let c: YCbCr = YCbCr::from(color);
            blit_luma(frame, bitmap, rect, clipped, c.y, color.a);
            blit_chroma(frame, bitmap, rect, clipped, c, color.a);
        },
    }
}

} // verus!
