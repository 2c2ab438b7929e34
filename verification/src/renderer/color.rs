//! RGBA colours, their limited-range Rec. 709 form, and alpha blending.
//!
//! The camera path delivers limited-range Rec. 709 video: luma in
//! `[16, 235]`, chroma in `[16, 240]`. Everything the renderer paints is
//! converted into that space first, with fixed-point arithmetic scaled by
//! 1024.

use vstd::prelude::*;

verus! {

/// 32-bit RGBA colour. Alpha is straight (non-premultiplied).
#[derive(Debug, Clone, Copy, PartialEq, Eq, Structural)]
pub struct Rgba {
    pub r: u8,
    pub g: u8,
    pub b: u8,
    pub a: u8,
}

/// BT.601 luminance of an RGB triple, in units of 1/255000.
pub open spec fn luminance(r: int, g: int, b: int) -> int {
    299 * r + 587 * g + 114 * b
}

/// Whether black text reads better than white on an RGB background: its
/// luminance lies strictly above 0.6.
pub open spec fn is_bright(c: Rgba) -> bool {
    luminance(c.r as int, c.g as int, c.b as int) > 153000
}

impl Rgba {
    pub fn new(r: u8, g: u8, b: u8, a: u8) -> (c: Self)
        ensures
            c == (Rgba { r, g, b, a }),
    {
        Rgba { r, g, b, a }
    }

    pub fn opaque(r: u8, g: u8, b: u8) -> (c: Self)
        ensures
            c == (Rgba { r, g, b, a: 255 }),
    {
        Rgba { r, g, b, a: 255 }
    }

    /// Opaque black or white, whichever reads better on `self` as a
    /// background. Leans toward white text and flips to black only on
    /// bright backgrounds.
    pub fn contrasting_text(self) -> (c: Self)
        ensures
            c == (if is_bright(self) {
                Rgba { r: 0, g: 0, b: 0, a: 255 }
            } else {
                Rgba { r: 255, g: 255, b: 255, a: 255 }
            }),
    {
        let l: u32 = 299 * (self.r as u32) + 587 * (self.g as u32) + 114 * (self.b as u32);
        if l > 153000 {
            Rgba::opaque(0, 0, 0)
        } else {
            Rgba::opaque(255, 255, 255)
        }
    }
}

/// A colour in limited-range Rec. 709.
#[derive(Debug, Clone, Copy, PartialEq, Eq, Structural)]
pub struct YCbCr {
    pub y: u8,
    pub cb: u8,
    pub cr: u8,
}

pub open spec fn clamp_int(v: int, lo: int, hi: int) -> int {
    if v < lo {
        lo
    } else if v > hi {
        hi
    } else {
        v
    }
}

/// The Rec. 709 conversion with coefficients scaled by 1024, held inside
/// the limited range.
pub open spec fn ycbcr_of(r: u8, g: u8, b: u8) -> YCbCr {
    YCbCr {
        y: clamp_int((187 * r + 629 * g + 64 * b + 16384) / 1024, 16, 235) as u8,
        cb: clamp_int((-103 * r - 347 * g + 450 * b + 131072) / 1024, 16, 240) as u8,
        cr: clamp_int((450 * r - 409 * g - 41 * b + 131072) / 1024, 16, 240) as u8,
    }
}

fn clamp_i32(v: i32, lo: i32, hi: i32) -> (c: i32)
    requires
        lo <= hi,
    ensures
        c == clamp_int(v as int, lo as int, hi as int),
{
    if v < lo {
        lo
    } else if v > hi {
        hi
    } else {
        v
    }
}

/// Convert an sRGB triple to limited-range Rec. 709.
pub fn rgb_to_ycbcr_rec709_limited(r: u8, g: u8, b: u8) -> (c: YCbCr)
    ensures
        c == ycbcr_of(r, g, b),
{
    let ri: i32 = r as i32;
    let gi: i32 = g as i32;
    let bi: i32 = b as i32;
    let y: i32 = (187 * ri + 629 * gi + 64 * bi + 16384) / 1024;
    let cb: i32 = (450 * bi + 131072 - 103 * ri - 347 * gi) / 1024;
    let cr: i32 = (450 * ri + 131072 - 409 * gi - 41 * bi) / 1024;
    YCbCr {
        y: clamp_i32(y, 16, 235) as u8,
        cb: clamp_i32(cb, 16, 240) as u8,
        cr: clamp_i32(cr, 16, 240) as u8,
    }
}

impl From<Rgba> for YCbCr {
    fn from(c: Rgba) -> (out: Self)
        ensures
            out == ycbcr_of(c.r, c.g, c.b),
    {
        rgb_to_ycbcr_rec709_limited(c.r, c.g, c.b)
    }
}

impl vstd::std_specs::convert::FromSpecImpl<Rgba> for YCbCr {
    open spec fn obeys_from_spec() -> bool {
        true
    }

    open spec fn from_spec(c: Rgba) -> Self {
        ycbcr_of(c.r, c.g, c.b)
    }
}

/// Straight-alpha blend of `src` over `dst` with weight `alpha / 255`, rounded
/// to the nearest whole number.
pub open spec fn blend(dst: int, src: int, alpha: int) -> int {
    (dst * (255 - alpha) + src * alpha + 127) / 255
}

/// `x / 255` for `x` below 65535, without a division.
pub(crate) fn div_255(x: u32) -> (q: u32)
    requires
        x < 65535,
    ensures
        q == x / 255,
{
    assert(x >> 8 <= 255) by (bit_vector)
        requires
            x < 65535,
    ;
    let t: u32 = x + 1 + (x >> 8);
    assert(t >> 8 == x / 255) by (bit_vector)
        requires
            x < 65535,
            t == x + 1 + (x >> 8),
    ;
    t >> 8
}

proof fn lemma_blend_bounds(dst: int, src: int, alpha: int)
    requires
        0 <= dst <= 255,
        0 <= src <= 255,
        0 <= alpha <= 255,
    ensures
        0 <= dst * (255 - alpha) <= 65025,
        0 <= src * alpha <= 65025,
        0 <= dst * (255 - alpha) + src * alpha <= 65025,
{
    assert(0 <= dst * (255 - alpha) <= 255 * (255 - alpha)) by (nonlinear_arith)
        requires
            0 <= dst <= 255,
            0 <= alpha <= 255,
    ;
    assert(0 <= src * alpha <= 255 * alpha) by (nonlinear_arith)
        requires
            0 <= src <= 255,
            0 <= alpha <= 255,
    ;
}

/// Blend one byte: `dst * (255 - alpha) + src * alpha`, divided by 255 with
/// rounding.
pub fn blend_u8(dst: u8, src: u8, alpha: u8) -> (out: u8)
    ensures
        out == blend(dst as int, src as int, alpha as int),
{
    proof {
        lemma_blend_bounds(dst as int, src as int, alpha as int);
    }
    let inv: u32 = 255 - alpha as u32;
    let acc: u32 = (dst as u32) * inv + (src as u32) * (alpha as u32);
    div_255(acc + 127) as u8
}

/// Every conversion stays inside the limited range.
pub proof fn law_limited_range(r: u8, g: u8, b: u8)
    ensures
        16 <= ycbcr_of(r, g, b).y <= 235,
        16 <= ycbcr_of(r, g, b).cb <= 240,
        16 <= ycbcr_of(r, g, b).cr <= 240,
{
}

/// A grey has neutral chroma, and more of it never darkens the luma.
pub proof fn law_grey_is_neutral(v: u8, w: u8)
    requires
        v <= w,
    ensures
        ycbcr_of(v, v, v).cb == 128,
        ycbcr_of(v, v, v).cr == 128,
        ycbcr_of(v, v, v).y <= ycbcr_of(w, w, w).y,
{
}

/// How bright a colour is: green counts for more than red and red for more than
/// blue, a grey counts for itself, and from six tenths on black reads better on it.
pub proof fn law_brightness(r: u8, g: u8, b: u8, v: u8)
    ensures
        g > r ==> luminance(r as int, g as int, b as int) > luminance(g as int, r as int, b as int),
        r > b ==> luminance(r as int, g as int, b as int) > luminance(b as int, g as int, r as int),
        luminance(v as int, v as int, v as int) == 1000 * v,
        is_bright(Rgba { r: v, g: v, b: v, a: 255 }) <==> 10 * v > 6 * 255,
        r <= v && is_bright(Rgba { r, g, b, a: 255 }) ==> is_bright(Rgba { r: v, g, b, a: 255 }),
        g <= v && is_bright(Rgba { r, g, b, a: 255 }) ==> is_bright(Rgba { r, g: v, b, a: 255 }),
        b <= v && is_bright(Rgba { r, g, b, a: 255 }) ==> is_bright(Rgba { r, g, b: v, a: 255 }),
{
}

/// Each component lies within two of what Rec. 709 gives for the limited range: luma
/// from the weights of the three primaries, and chroma from how far blue and red are
/// above the luma.
pub proof fn law_close_to_rec709(r: u8, g: u8, b: u8)
    ensures
        ({
            let c = ycbcr_of(r, g, b);
            let light = 2126 * r + 7152 * g + 722 * b;
            &&& -2 * 2_550_000 < 2_550_000 * (c.y - 16) - 219 * light < 2 * 2_550_000
            &&& -2 * 4_731_780 < 4_731_780 * (c.cb - 128) - 224 * (10_000 * b - light) < 2
                * 4_731_780
            &&& -2 * 4_015_740 < 4_015_740 * (c.cr - 128) - 224 * (10_000 * r - light) < 2
                * 4_015_740
        }),
{
}

/// More red never lowers luma or the red difference and never raises the blue one;
/// more blue never lowers luma or the blue difference and never raises the red one;
/// more green never lowers luma and never raises either.
pub proof fn law_primaries_pull_apart(r: u8, g: u8, b: u8, more: u8)
    ensures
        more >= r ==> ycbcr_of(more, g, b).y >= ycbcr_of(r, g, b).y && ycbcr_of(more, g, b).cr
            >= ycbcr_of(r, g, b).cr && ycbcr_of(more, g, b).cb <= ycbcr_of(r, g, b).cb,
        more >= g ==> ycbcr_of(r, more, b).y >= ycbcr_of(r, g, b).y && ycbcr_of(r, more, b).cr
            <= ycbcr_of(r, g, b).cr && ycbcr_of(r, more, b).cb <= ycbcr_of(r, g, b).cb,
        more >= b ==> ycbcr_of(r, g, more).y >= ycbcr_of(r, g, b).y && ycbcr_of(r, g, more).cr
            <= ycbcr_of(r, g, b).cr && ycbcr_of(r, g, more).cb >= ycbcr_of(r, g, b).cb,
{
}

/// Weight 0 keeps the destination, weight 255 takes the source.
pub proof fn law_blend_ends(dst: u8, src: u8)
    ensures
        blend(dst as int, src as int, 0) == dst,
        blend(dst as int, src as int, 255) == src,
{
}

/// A blend is the whole number nearest to the weighted mean of its inputs.
pub proof fn law_blend_nearest(dst: u8, src: u8, alpha: u8)
    ensures
        ({
            let acc = dst * (255 - alpha) + src * alpha;
            -127 <= 255 * blend(dst as int, src as int, alpha as int) - acc <= 127
        }),
{
}

/// A blend lies between its two inputs; blending a byte with itself
/// changes nothing.
pub proof fn law_blend_between(dst: u8, src: u8, alpha: u8)
    ensures
        dst <= src ==> dst <= blend(dst as int, src as int, alpha as int) <= src,
        src <= dst ==> src <= blend(dst as int, src as int, alpha as int) <= dst,
{
    let d = dst as int;
    let s = src as int;
    let a = alpha as int;
    assert(d * (255 - a) + s * a == 255 * d + (s - d) * a) by (nonlinear_arith);
    if d <= s {
        assert(0 <= (s - d) * a <= 255 * (s - d)) by (nonlinear_arith)
            requires
                0 <= s - d,
                0 <= a <= 255,
        ;
    } else {
        assert(255 * (s - d) <= (s - d) * a <= 0) by (nonlinear_arith)
            requires
                s - d <= 0,
                0 <= a <= 255,
        ;
    }
}

} // verus!
