//! NV12 frame views and rectangle clipping.
//!
//! NV12 is YUV 4:2:0 in two planes. The Y plane holds one byte per pixel.
//! The UV plane holds interleaved `(U, V)` pairs, one for each 2×2 block of
//! pixels. Rows of either plane may be padded: every access goes through the
//! stride, never through the width.

use vstd::prelude::*;

verus! {

/// Mutable view into an NV12 buffer. Width and height are in pixels, both
/// strides in bytes.
pub struct Nv12FrameMut<'a> {
    pub y_plane: &'a mut [u8],
    pub uv_plane: &'a mut [u8],
    pub y_stride: usize,
    pub uv_stride: usize,
    pub width: u32,
    pub height: u32,
}

/// What a frame holds: its planes, and how they are laid out.
pub struct Picture {
    pub y: Seq<u8>,
    pub uv: Seq<u8>,
    pub y_stride: int,
    pub uv_stride: int,
    pub width: int,
    pub height: int,
}

impl<'a> View for Nv12FrameMut<'a> {
    type V = Picture;

    open spec fn view(&self) -> Picture {
        Picture {
            y: self.y_plane@,
            uv: self.uv_plane@,
            y_stride: self.y_stride as int,
            uv_stride: self.uv_stride as int,
            width: self.width as int,
            height: self.height as int,
        }
    }
}

/// The layouts a frame view accepts: even, non-zero dimensions, strides that
/// hold a row, and planes that hold every row.
pub open spec fn valid_layout(
    y_len: int,
    uv_len: int,
    y_stride: int,
    uv_stride: int,
    width: int,
    height: int,
) -> bool {
    &&& width > 0
    &&& height > 0
    &&& width % 2 == 0
    &&& height % 2 == 0
    &&& y_stride >= width
    &&& uv_stride >= width
    &&& y_len >= height * y_stride
    &&& uv_len >= (height / 2) * uv_stride
}

impl<'a> Nv12FrameMut<'a> {
    pub open spec fn wf(&self) -> bool {
        valid_layout(
            self.y_plane@.len() as int,
            self.uv_plane@.len() as int,
            self.y_stride as int,
            self.uv_stride as int,
            self.width as int,
            self.height as int,
        )
    }

    /// Both views describe planes of the same size laid out the same way.
    pub open spec fn same_layout(&self, other: &Self) -> bool {
        &&& self.y_plane@.len() == other.y_plane@.len()
        &&& self.uv_plane@.len() == other.uv_plane@.len()
        &&& self.y_stride == other.y_stride
        &&& self.uv_stride == other.uv_stride
        &&& self.width == other.width
        &&& self.height == other.height
    }

    /// Construct a frame view. `None` when the layout is not valid; the
    /// caller then skips the frame.
    pub fn new(
        y_plane: &'a mut [u8],
        uv_plane: &'a mut [u8],
        y_stride: usize,
        uv_stride: usize,
        width: u32,
        height: u32,
    ) -> (r: Option<Self>)
        ensures
            r is Some <==> valid_layout(
                old(y_plane)@.len() as int,
                old(uv_plane)@.len() as int,
                y_stride as int,
                uv_stride as int,
                width as int,
                height as int,
            ),
            r matches Some(f) ==> {
                &&& f.wf()
                &&& f.y_plane@ == old(y_plane)@
                &&& f.uv_plane@ == old(uv_plane)@
                &&& f.y_stride == y_stride
                &&& f.uv_stride == uv_stride
                &&& f.width == width
                &&& f.height == height
                &&& final(f.y_plane)@ == final(y_plane)@
                &&& final(f.uv_plane)@ == final(uv_plane)@
            },
            r is None ==> final(y_plane)@ == old(y_plane)@ && final(uv_plane)@ == old(uv_plane)@,
    {
        if width == 0 || height == 0 {
            return None;
        }
        if width % 2 != 0 || height % 2 != 0 {
            return None;
        }
        if y_stride < width as usize || uv_stride < width as usize {
            return None;
        }
        let y_len: usize = y_plane.len();
        let uv_len: usize = uv_plane.len();
        let y_needed: Option<usize> = (height as usize).checked_mul(y_stride);
        let uv_needed: Option<usize> = (height as usize / 2).checked_mul(uv_stride);
        match (y_needed, uv_needed) {
            (Some(y_bytes), Some(uv_bytes)) => {
                if y_len < y_bytes || uv_len < uv_bytes {
                    return None;
                }
                Some(Nv12FrameMut { y_plane, uv_plane, y_stride, uv_stride, width, height })
            },
            _ => None,
        }
    }
}

/// Rectangle in pixel coordinates. May extend past the frame on any side.
#[derive(Debug, Clone, Copy, PartialEq, Eq, Structural)]
pub struct Rect {
    pub x: i32,
    pub y: i32,
    pub width: i32,
    pub height: i32,
}

/// Rectangle that lies inside a frame and has an area.
#[derive(Debug, Clone, Copy, PartialEq, Eq, Structural)]
pub struct ClippedRect {
    pub x: u32,
    pub y: u32,
    pub width: u32,
    pub height: u32,
}

impl ClippedRect {
    pub open spec fn contains(&self, px: int, py: int) -> bool {
        &&& self.x <= px < self.x + self.width
        &&& self.y <= py < self.y + self.height
    }

    /// The rectangle has an area and lies inside a frame of this size.
    pub open spec fn within(&self, frame_width: int, frame_height: int) -> bool {
        &&& self.width > 0
        &&& self.height > 0
        &&& self.x + self.width <= frame_width
        &&& self.y + self.height <= frame_height
    }
}

impl Rect {
    pub open spec fn contains(&self, px: int, py: int) -> bool {
        &&& self.x <= px < self.x + self.width
        &&& self.y <= py < self.y + self.height
    }

    /// The rectangle covers the pixel, and the pixel exists.
    pub open spec fn touches(&self, frame_width: int, frame_height: int, px: int, py: int) -> bool {
        &&& 0 <= px < frame_width
        &&& 0 <= py < frame_height
        &&& self.contains(px, py)
    }

    /// The rectangle touches a pixel of the 2×2 block at `(cx, cy)`.
    pub open spec fn touches_block(
        &self,
        frame_width: int,
        frame_height: int,
        cx: int,
        cy: int,
    ) -> bool {
        ||| self.touches(frame_width, frame_height, 2 * cx, 2 * cy)
        ||| self.touches(frame_width, frame_height, 2 * cx + 1, 2 * cy)
        ||| self.touches(frame_width, frame_height, 2 * cx, 2 * cy + 1)
        ||| self.touches(frame_width, frame_height, 2 * cx + 1, 2 * cy + 1)
    }

    /// Intersect with the frame. `None` exactly when no pixel of the frame
    /// is covered; a rectangle with a negative side covers nothing.
    pub fn clip_to_frame(&self, frame_width: u32, frame_height: u32) -> (r: Option<ClippedRect>)
        ensures
            r is None <==> forall|px: int, py: int|
                !#[trigger] self.touches(frame_width as int, frame_height as int, px, py),
            r matches Some(c) ==> {
                &&& c.within(frame_width as int, frame_height as int)
                &&& forall|px: int, py: int| #[trigger]
                    c.contains(px, py) <==> self.touches(
                        frame_width as int,
                        frame_height as int,
                        px,
                        py,
                    )
            },
    {
        if self.width <= 0 || self.height <= 0 {
            return None;
        }
        let left: i64 = self.x as i64;
        let top: i64 = self.y as i64;
        let right: i64 = left + self.width as i64;
        let bottom: i64 = top + self.height as i64;
        let frame_w: i64 = frame_width as i64;
        let frame_h: i64 = frame_height as i64;

        let clipped_left: i64 = if left < 0 { 0 } else { left };
        let clipped_top: i64 = if top < 0 { 0 } else { top };
        let clipped_right: i64 = if right > frame_w { frame_w } else { right };
        let clipped_bottom: i64 = if bottom > frame_h { frame_h } else { bottom };

        if clipped_right <= clipped_left || clipped_bottom <= clipped_top {
            return None;
        }
        let c = ClippedRect {
            x: clipped_left as u32,
            y: clipped_top as u32,
            width: (clipped_right - clipped_left) as u32,
            height: (clipped_bottom - clipped_top) as u32,
        };
        assert(self.touches(
            frame_width as int,
            frame_height as int,
            clipped_left as int,
            clipped_top as int,
        ));
        Some(c)
    }
}

/// A plane after each byte was replaced by `f(column, row, byte)`, where the
/// column counts bytes from the start of the row.
pub open spec fn repaint(plane: Seq<u8>, stride: int, f: spec_fn(int, int, u8) -> u8) -> Seq<u8> {
    Seq::new(plane.len(), |i: int| f(i % stride, i / stride, plane[i]))
}

/// The bytes of row `row` are those from `row * stride` on, and before
/// `(row + 1) * stride`.
pub proof fn lemma_row_of_index(i: int, stride: int, row: int)
    requires
        stride > 0,
        row * stride <= i < (row + 1) * stride,
    ensures
        i / stride == row,
        i % stride == i - row * stride,
{
    assert((row + 1) * stride == row * stride + stride) by (nonlinear_arith);
    vstd::arithmetic::div_mod::lemma_fundamental_div_mod_converse(
        i,
        stride,
        row,
        i - row * stride,
    );
}

/// An index before the start of a row belongs to an earlier row.
pub proof fn lemma_index_before_row(i: int, stride: int, row: int)
    requires
        stride > 0,
        i >= 0,
    ensures
        i < row * stride <==> i / stride < row,
        0 <= i % stride < stride,
        i / stride >= 0,
{
    vstd::arithmetic::div_mod::lemma_fundamental_div_mod(i, stride);
    let q = i / stride;
    if q < row {
        assert(q * stride + stride <= row * stride) by (nonlinear_arith)
            requires
                q < row,
                stride > 0,
        ;
        assert(stride * q == q * stride) by (nonlinear_arith);
    } else {
        assert(row * stride <= q * stride) by (nonlinear_arith)
            requires
                row <= q,
                stride > 0,
        ;
        assert(stride * q == q * stride) by (nonlinear_arith);
    }
    assert(i / stride >= 0) by (nonlinear_arith)
        requires
            i >= 0,
            stride > 0,
    ;
}

/// A position inside a row of a plane that holds `rows` rows has an index
/// inside the plane.
pub proof fn lemma_position_in_plane(len: int, stride: int, rows: int, row: int)
    requires
        stride > 0,
        0 <= row < rows,
        rows * stride <= len,
    ensures
        0 <= row * stride,
        row * stride + stride <= len,
        (row + 1) * stride == row * stride + stride,
{
    assert(0 <= row * stride && row * stride + stride <= rows * stride) by (nonlinear_arith)
        requires
            stride > 0,
            0 <= row < rows,
    ;
    assert((row + 1) * stride == row * stride + stride) by (nonlinear_arith);
}

} // verus!
