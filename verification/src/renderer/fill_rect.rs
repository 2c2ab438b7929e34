//! Rectangle fills, opaque and alpha-blended.
//!
//! A chroma pair covers a 2×2 block of pixels. A block that the rectangle
//! touches at all has its pair updated, so an edge that bisects a block
//! tints the pixels of the block that the luma pass left alone.

use vstd::prelude::*;
use super::color;
use super::color::{blend_u8, Rgba, YCbCr};
use super::frame;
use super::frame::{ClippedRect, Nv12FrameMut, Picture, Rect};

verus! {

/// Luma plane after a fill: each pixel of the frame inside `rect` is blended
/// toward `y`, every other byte stays.
pub open spec fn luma_after(
    plane: Seq<u8>,
    stride: int,
    width: int,
    height: int,
    rect: Rect,
    y: u8,
    alpha: u8,
) -> Seq<u8> {
    frame::repaint(
        plane,
        stride,
        |col: int, row: int, b: u8|
            if rect.touches(width, height, col, row) {
                color::blend(b as int, y as int, alpha as int) as u8
            } else {
                b
            },
    )
}

/// Chroma plane after a fill: each pair whose block `rect` touches is blended
/// toward `(cb, cr)`, every other byte stays.
pub open spec fn chroma_after(
    plane: Seq<u8>,
    stride: int,
    width: int,
    height: int,
    rect: Rect,
    cb: u8,
    cr: u8,
    alpha: u8,
) -> Seq<u8> {
    frame::repaint(
        plane,
        stride,
        |col: int, row: int, b: u8|
            if rect.touches_block(width, height, col / 2, row) {
                color::blend(
                    b as int,
                    if col % 2 == 0 {
                        cb as int
                    } else {
                        cr as int
                    },
                    alpha as int,
                ) as u8
            } else {
                b
            },
    )
}

/// A picture with `rect` filled in `c` at weight `alpha`.
pub open spec fn filled(before: Picture, rect: Rect, c: YCbCr, alpha: u8) -> Picture {
    Picture {
        y: luma_after(
            before.y,
            before.y_stride,
            before.width,
            before.height,
            rect,
            c.y,
            alpha,
        ),
        uv: chroma_after(
            before.uv,
            before.uv_stride,
            before.width,
            before.height,
            rect,
            c.cb,
            c.cr,
            alpha,
        ),
        ..before
    }
}

/// Blend the bytes `start..end` toward `value`.
fn blend_span(plane: &mut [u8], start: usize, end: usize, value: u8, alpha: u8)
    requires
        start <= end <= old(plane)@.len(),
    ensures
        final(plane)@ == Seq::new(
            old(plane)@.len(),
            |i: int|
                if start <= i < end {
                    color::blend(old(plane)@[i] as int, value as int, alpha as int) as u8
                } else {
                    old(plane)@[i]
                },
        ),
{
    let mut i: usize = start;
    while i < end
        invariant
            start <= i <= end <= plane@.len(),
            plane@.len() == old(plane)@.len(),
            forall|k: int|
                0 <= k < plane@.len() ==> plane@[k] == (if start <= k < i {
                    color::blend(old(plane)@[k] as int, value as int, alpha as int) as u8
                } else {
                    old(plane)@[k]
                }),
        decreases end - i,
    {
        if alpha == 255 {
            proof {
                color::law_blend_ends(plane@[i as int], value);
            }
            plane[i] = value;
        } else {
            let b: u8 = plane[i];
            plane[i] = blend_u8(b, value, alpha);
        }
        i = i + 1;
    }
}

/// Blend `pairs` consecutive `(U, V)` pairs from `start` on toward `(cb, cr)`.
fn blend_pairs(plane: &mut [u8], start: usize, pairs: usize, cb: u8, cr: u8, alpha: u8)
    requires
        start + 2 * pairs <= old(plane)@.len(),
    ensures
        final(plane)@ == Seq::new(
            old(plane)@.len(),
            |i: int|
                if start <= i < start + 2 * pairs {
                    color::blend(
                        old(plane)@[i] as int,
                        if (i - start) % 2 == 0 {
                            cb as int
                        } else {
                            cr as int
                        },
                        alpha as int,
                    ) as u8
                } else {
                    old(plane)@[i]
                },
        ),
{
    let len: usize = plane.len();
    let mut n: usize = 0;
    while n < pairs
        invariant
            n <= pairs,
            plane@.len() == len,
            start + 2 * pairs <= plane@.len(),
            plane@.len() == old(plane)@.len(),
            forall|k: int|
                0 <= k < plane@.len() ==> plane@[k] == (if start <= k < start + 2 * n {
                    color::blend(
                        old(plane)@[k] as int,
                        if (k - start) % 2 == 0 {
                            cb as int
                        } else {
                            cr as int
                        },
                        alpha as int,
                    ) as u8
                } else {
                    old(plane)@[k]
                }),
        decreases pairs - n,
    {
        let off: usize = start + 2 * n;
        let u: u8 = plane[off];
        let v: u8 = plane[off + 1];
        plane[off] = blend_u8(u, cb, alpha);
        plane[off + 1] = blend_u8(v, cr, alpha);
        n = n + 1;
    }
}

/// The chroma blocks that a clipped rectangle touches, as the half-open
/// ranges `cx0..cx1` and `cy0..cy1`.
pub(crate) fn covered_chroma_blocks(rect: &ClippedRect, frame_width: u32, frame_height: u32) -> (r: (
    u32,
    u32,
    u32,
    u32,
))
    requires
        rect.within(frame_width as int, frame_height as int),
        frame_width % 2 == 0,
        frame_height % 2 == 0,
    ensures
        r.0 == rect.x / 2,
        r.1 == rect.y / 2,
        r.2 == (rect.x + rect.width + 1) / 2,
        r.3 == (rect.y + rect.height + 1) / 2,
        r.0 < r.2 <= frame_width / 2,
        r.1 < r.3 <= frame_height / 2,
{
    let right: u32 = rect.x + rect.width;
    let bottom: u32 = rect.y + rect.height;
    let cx1: u32 = right / 2 + right % 2;
    let cy1: u32 = bottom / 2 + bottom % 2;
    (rect.x / 2, rect.y / 2, cx1, cy1)
}

proof fn lemma_blocks_are_touched(rect: Rect, c: ClippedRect, w: int, h: int, cx: int, cy: int)
    requires
        forall|px: int, py: int| #[trigger] c.contains(px, py) <==> rect.touches(w, h, px, py),
    ensures
        rect.touches_block(w, h, cx, cy) <==> (c.width > 0 && c.height > 0 && c.x as int / 2 <= cx
            < (c.x + c.width + 1) / 2 && c.y as int / 2 <= cy < (c.y + c.height + 1) / 2),
{
    assert(c.contains(2 * cx, 2 * cy) <==> rect.touches(w, h, 2 * cx, 2 * cy));
    assert(c.contains(2 * cx + 1, 2 * cy) <==> rect.touches(w, h, 2 * cx + 1, 2 * cy));
    assert(c.contains(2 * cx, 2 * cy + 1) <==> rect.touches(w, h, 2 * cx, 2 * cy + 1));
    assert(c.contains(2 * cx + 1, 2 * cy + 1) <==> rect.touches(w, h, 2 * cx + 1, 2 * cy + 1));
}

fn paint_luma(f: &mut Nv12FrameMut<'_>, rect: Rect, clipped: ClippedRect, y: u8, alpha: u8)
    requires
        old(f).wf(),
        clipped.within(old(f).width as int, old(f).height as int),
        forall|px: int, py: int| #[trigger]
            clipped.contains(px, py) <==> rect.touches(
                old(f).width as int,
                old(f).height as int,
                px,
                py,
            ),
    ensures
        final(f).same_layout(old(f)),
        // The frame still borrows the same planes.
        final(final(f).y_plane)@ == final(old(f).y_plane)@,
        final(final(f).uv_plane)@ == final(old(f).uv_plane)@,
        final(f).uv_plane@ == old(f).uv_plane@,
        final(f).y_plane@ == luma_after(
            old(f).y_plane@,
            old(f).y_stride as int,
            old(f).width as int,
            old(f).height as int,
            rect,
            y,
            alpha,
        ),
{
    let stride: usize = f.y_stride;
    let len: usize = f.y_plane.len();
    let bottom: u32 = clipped.y + clipped.height;
    let ghost w = f.width as int;
    let ghost h = f.height as int;
    let ghost before = f.y_plane@;
    let ghost after = luma_after(before, stride as int, w, h, rect, y, alpha);
    let mut row: u32 = clipped.y;
    proof {
        assert forall|i: int| 0 <= i < before.len() && i < row * stride implies before[i]
            == after[i] by {
            frame::lemma_index_before_row(i, stride as int, row as int);
            assert(!clipped.contains(i % (stride as int), i / (stride as int)));
        }
    }
    while row < bottom
        invariant
            clipped.y <= row <= bottom,
            bottom == clipped.y + clipped.height,
            stride == f.y_stride,
            f.wf(),
            final(f.y_plane)@ == final(old(f).y_plane)@,
            final(f.uv_plane)@ == final(old(f).uv_plane)@,
            f.same_layout(old(f)),
            f.uv_plane@ == old(f).uv_plane@,
            w == f.width,
            h == f.height,
            clipped.within(w, h),
            forall|px: int, py: int| #[trigger]
                clipped.contains(px, py) <==> rect.touches(w, h, px, py),
            f.y_plane@.len() == before.len() == len,
            after == luma_after(before, stride as int, w, h, rect, y, alpha),
            forall|i: int|
                0 <= i < before.len() ==> #[trigger] f.y_plane@[i] == (if i < row * stride {
                    after[i]
                } else {
                    before[i]
                }),
        decreases bottom - row,
    {
        proof {
            frame::lemma_position_in_plane(before.len() as int, stride as int, h, row as int);
        }
        let off: usize = row as usize * stride + clipped.x as usize;
        let end: usize = off + clipped.width as usize;
        blend_span(f.y_plane, off, end, y, alpha);
        proof {
            assert forall|i: int| 0 <= i < before.len() implies #[trigger] f.y_plane@[i] == (if i
                < (row + 1) * stride {
                after[i]
            } else {
                before[i]
            }) by {
                if row * stride <= i < (row + 1) * stride {
                    frame::lemma_row_of_index(i, stride as int, row as int);
                    let col = i - row * stride;
                    assert(clipped.contains(col, row as int) <==> rect.touches(
                        w,
                        h,
                        col,
                        row as int,
                    ));
                }
            }
        }
        row = row + 1;
    }
    proof {
        assert forall|i: int| 0 <= i < before.len() implies #[trigger] f.y_plane@[i]
            == after[i] by {
            if i >= row * stride {
                frame::lemma_index_before_row(i, stride as int, row as int);
                assert(!clipped.contains(i % (stride as int), i / (stride as int)));
            }
        }
        assert(f.y_plane@ =~= after);
    }
}

fn paint_chroma(f: &mut Nv12FrameMut<'_>, rect: Rect, clipped: ClippedRect, c: YCbCr, alpha: u8)
    requires
        old(f).wf(),
        clipped.within(old(f).width as int, old(f).height as int),
        forall|px: int, py: int| #[trigger]
            clipped.contains(px, py) <==> rect.touches(
                old(f).width as int,
                old(f).height as int,
                px,
                py,
            ),
    ensures
        final(f).same_layout(old(f)),
        // The frame still borrows the same planes.
        final(final(f).y_plane)@ == final(old(f).y_plane)@,
        final(final(f).uv_plane)@ == final(old(f).uv_plane)@,
        final(f).y_plane@ == old(f).y_plane@,
        final(f).uv_plane@ == chroma_after(
            old(f).uv_plane@,
            old(f).uv_stride as int,
            old(f).width as int,
            old(f).height as int,
            rect,
            c.cb,
            c.cr,
            alpha,
        ),
{
    let stride: usize = f.uv_stride;
    let len: usize = f.uv_plane.len();
    let (cx0, cy0, cx1, cy1) = covered_chroma_blocks(&clipped, f.width, f.height);
    let pairs: usize = (cx1 - cx0) as usize;
    let ghost w = f.width as int;
    let ghost h = f.height as int;
    let ghost before = f.uv_plane@;
    let ghost after = chroma_after(before, stride as int, w, h, rect, c.cb, c.cr, alpha);
    let mut cy: u32 = cy0;
    proof {
        assert forall|i: int| 0 <= i < before.len() && i < cy * stride implies before[i]
            == after[i] by {
            frame::lemma_index_before_row(i, stride as int, cy as int);
            lemma_blocks_are_touched(
                rect,
                clipped,
                w,
                h,
                i % (stride as int) / 2,
                i / (stride as int),
            );
        }
    }
    while cy < cy1
        invariant
            cy0 <= cy <= cy1 <= h / 2,
            cx0 < cx1 <= w / 2,
            cx0 == clipped.x / 2,
            cy0 == clipped.y / 2,
            cx1 == (clipped.x + clipped.width + 1) / 2,
            cy1 == (clipped.y + clipped.height + 1) / 2,
            pairs == cx1 - cx0,
            stride == f.uv_stride,
            f.wf(),
            final(f.y_plane)@ == final(old(f).y_plane)@,
            final(f.uv_plane)@ == final(old(f).uv_plane)@,
            f.same_layout(old(f)),
            f.y_plane@ == old(f).y_plane@,
            w == f.width,
            h == f.height,
            clipped.within(w, h),
            forall|px: int, py: int| #[trigger]
                clipped.contains(px, py) <==> rect.touches(w, h, px, py),
            f.uv_plane@.len() == before.len() == len,
            after == chroma_after(before, stride as int, w, h, rect, c.cb, c.cr, alpha),
            forall|i: int|
                0 <= i < before.len() ==> #[trigger] f.uv_plane@[i] == (if i < cy * stride {
                    after[i]
                } else {
                    before[i]
                }),
        decreases cy1 - cy,
    {
        proof {
            frame::lemma_position_in_plane(before.len() as int, stride as int, h / 2, cy as int);
        }
        let base: usize = cy as usize * stride + cx0 as usize * 2;
        blend_pairs(f.uv_plane, base, pairs, c.cb, c.cr, alpha);
        proof {
            assert forall|i: int| 0 <= i < before.len() implies #[trigger] f.uv_plane@[i] == (if i
                < (cy + 1) * stride {
                after[i]
            } else {
                before[i]
            }) by {
                if cy * stride <= i < (cy + 1) * stride {
                    frame::lemma_row_of_index(i, stride as int, cy as int);
                    let col = i - cy * stride;
                    lemma_blocks_are_touched(rect, clipped, w, h, col / 2, cy as int);
                    assert((i - base) % 2 == col % 2);
                }
            }
        }
        cy = cy + 1;
    }
    proof {
        assert forall|i: int| 0 <= i < before.len() implies #[trigger] f.uv_plane@[i]
            == after[i] by {
            if i >= cy * stride {
                frame::lemma_index_before_row(i, stride as int, cy as int);
                lemma_blocks_are_touched(
                    rect,
                    clipped,
                    w,
                    h,
                    i % (stride as int) / 2,
                    i / (stride as int),
                );
            }
        }
        assert(f.uv_plane@ =~= after);
    }
}

/// A weight of 0, or a rectangle that misses the frame, changes nothing.
pub proof fn law_invisible_fill(before: Picture, rect: Rect, c: YCbCr, alpha: u8)
    requires
        alpha == 0 || forall|px: int, py: int|
            !#[trigger] rect.touches(before.width, before.height, px, py),
    ensures
        filled(before, rect, c, alpha) == before,
{
    let after = filled(before, rect, c, alpha);
    assert forall|i: int| 0 <= i < after.y.len() implies after.y[i] == before.y[i] by {
        color::law_blend_ends(before.y[i], c.y);
    }
    assert(after.y =~= before.y);
    assert forall|i: int| 0 <= i < after.uv.len() implies after.uv[i] == before.uv[i] by {
        color::law_blend_ends(before.uv[i], c.cb);
        color::law_blend_ends(before.uv[i], c.cr);
    }
    assert(after.uv =~= before.uv);
}

/// A full weight paints the colour itself over the rectangle: every pixel of
/// the frame inside it takes the luma, every block it touches the chroma.
pub proof fn law_full_weight_is_opaque(before: Picture, rect: Rect, c: YCbCr, i: int)
    ensures
        0 <= i < before.y.len() && rect.touches(
            before.width,
            before.height,
            i % before.y_stride,
            i / before.y_stride,
        ) ==> filled(before, rect, c, 255).y[i] == c.y,
        0 <= i < before.uv.len() && rect.touches_block(
            before.width,
            before.height,
            i % before.uv_stride / 2,
            i / before.uv_stride,
        ) ==> filled(before, rect, c, 255).uv[i] == (if i % before.uv_stride % 2 == 0 {
            c.cb
        } else {
            c.cr
        }),
{
    if 0 <= i < before.y.len() {
        color::law_blend_ends(before.y[i], c.y);
    }
    if 0 <= i < before.uv.len() {
        color::law_blend_ends(before.uv[i], c.cb);
        color::law_blend_ends(before.uv[i], c.cr);
    }
}

/// A fill leaves the luma outside the rectangle, the chroma of blocks it does
/// not touch, and the padding of either plane as they were.
pub proof fn law_fill_stays_inside(before: Picture, rect: Rect, c: YCbCr, alpha: u8, i: int)
    requires
        before.width % 2 == 0,
        before.y_stride > 0,
        before.uv_stride > 0,
    ensures
        filled(before, rect, c, alpha).y.len() == before.y.len(),
        filled(before, rect, c, alpha).uv.len() == before.uv.len(),
        0 <= i < before.y.len() && (i % before.y_stride >= before.width || !rect.contains(
            i % before.y_stride,
            i / before.y_stride,
        )) ==> filled(before, rect, c, alpha).y[i] == before.y[i],
        0 <= i < before.uv.len() && (i % before.uv_stride >= before.width || !rect.touches_block(
            before.width,
            before.height,
            i % before.uv_stride / 2,
            i / before.uv_stride,
        )) ==> filled(before, rect, c, alpha).uv[i] == before.uv[i],
{
}

fn paint(f: &mut Nv12FrameMut<'_>, rect: Rect, c: YCbCr, alpha: u8)
    requires
        old(f).wf(),
    ensures
        final(f).wf(),
        // The frame still borrows the same planes.
        final(final(f).y_plane)@ == final(old(f).y_plane)@,
        final(final(f).uv_plane)@ == final(old(f).uv_plane)@,
        final(f)@ == filled(old(f)@, rect, c, alpha),
{
    match rect.clip_to_frame(f.width, f.height) {
        None => {
            proof {
                law_invisible_fill(f@, rect, c, alpha);
            }
        },
        Some(clipped) => {
            paint_luma(f, rect, clipped, c.y, alpha);
            paint_chroma(f, rect, clipped, c, alpha);
        },
    }
}

/// Fill `rect` with the opaque `color`. `color.a` plays no part: see
/// [`fill_rect_alpha`] for blending.
pub fn fill_rect_opaque(frame: &mut Nv12FrameMut<'_>, rect: Rect, color: Rgba)
    requires
        old(frame).wf(),
    ensures
        final(frame).wf(),
        // The frame still borrows the same planes.
        final(final(frame).y_plane)@ == final(old(frame).y_plane)@,
        final(final(frame).uv_plane)@ == final(old(frame).uv_plane)@,
        final(frame)@ == filled(
            old(frame)@,
            rect,
            color::ycbcr_of(color.r, color.g, color.b),
            255,
        ),
{
    let c: YCbCr = YCbCr::from(color);
    paint(frame, rect, c, 255);
}

/// Blend `color` over `rect` with weight `color.a`.
pub fn fill_rect_alpha(frame: &mut Nv12FrameMut<'_>, rect: Rect, color: Rgba)
    requires
        old(frame).wf(),
    ensures
        final(frame).wf(),
        // The frame still borrows the same planes.
        final(final(frame).y_plane)@ == final(old(frame).y_plane)@,
        final(final(frame).uv_plane)@ == final(old(frame).uv_plane)@,
        final(frame)@ == filled(
            old(frame)@,
            rect,
            color::ycbcr_of(color.r, color.g, color.b),
            color.a,
        ),
{
    let c: YCbCr = YCbCr::from(color);
    if color.a == 0 {
        proof {
            law_invisible_fill(frame@, rect, c, color.a);
        }
        return;
    }
    paint(frame, rect, c, color.a);
}

} // verus!
