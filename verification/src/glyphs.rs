//! Glyph cache: rasterise once per font, size, style and character.
//!
//! FreeType renders the glyphs. Whether a font file opens, and what a face
//! holds, is decided by the files on disk, so no contract here says what a
//! glyph looks like; [`bitmap_from_slot`] says exactly what becomes of the
//! image that FreeType hands over. A character the font lacks is rendered as
//! the font's replacement glyph and reported once.

use std::collections::{HashMap, HashSet};
use vstd::prelude::*;
use vstd::string::StrSliceExecFns;
use crate::renderer::frame;

verus! {

/// Font identifier chosen by the caller. With a [`FontStyle`] it addresses
/// one registered face.
#[derive(Debug, Clone, Copy, Hash, Eq, PartialEq, Ord, PartialOrd, Structural)]
pub struct FontId(pub u32);

/// Face style. Bold means the bold file, not a synthetic stroke.
#[derive(Debug, Clone, Copy, Hash, Eq, PartialEq, Structural)]
pub enum FontStyle {
    Regular,
    Bold,
}

/// Cache key of one rasterised glyph.
#[derive(Debug, Clone, Copy, Hash, Eq, PartialEq, Structural)]
pub struct GlyphKey {
    pub font_id: FontId,
    pub size_px: u32,
    pub style: FontStyle,
    pub codepoint: char,
}

/// Rasterised glyph: an 8-bit coverage mask with its metrics, in pixels.
#[derive(Debug, Clone)]
pub struct GlyphBitmap {
    pub width: u32,
    pub height: u32,
    /// Offset from the pen to the left edge of the bitmap.
    pub bearing_x: i32,
    /// Offset from the baseline up to the top edge of the bitmap.
    pub bearing_y: i32,
    /// Pen advance after this glyph.
    pub advance_x: i32,
    /// Row-major `height * width` coverage, 0 transparent to 255 opaque.
    /// Empty for whitespace.
    pub alpha: Vec<u8>,
}

impl GlyphBitmap {
    /// The mask holds every pixel of the bitmap.
    pub open spec fn wf(&self) -> bool {
        self.alpha@.len() >= self.height * self.width
    }

    pub open spec fn spec_is_empty(&self) -> bool {
        self.width == 0 || self.height == 0 || self.alpha@.len() == 0
    }

    /// Whether the glyph covers no pixel, as the space does.
    pub fn is_empty(&self) -> (r: bool)
        ensures
            r == self.spec_is_empty(),
    {
        self.width == 0 || self.height == 0 || self.alpha.len() == 0
    }

    /// Coverage at a position of the bitmap; 0 outside of it.
    pub open spec fn coverage(&self, bx: int, by: int) -> int {
        if 0 <= bx < self.width && 0 <= by < self.height {
            self.alpha@[by * self.width + bx] as int
        } else {
            0
        }
    }
}

// FreeType.

/// FreeType library handle.
#[verifier::external_type_specification]
#[verifier::external_body]
pub struct ExLibrary(freetype::Library);

/// FreeType face.
#[verifier::external_type_specification]
#[verifier::external_body]
#[verifier::reject_recursive_types(BYTES)]
pub struct ExFace<BYTES>(freetype::Face<BYTES>);

/// FreeType error code.
#[verifier::external_type_specification]
#[verifier::external_body]
pub struct ExFreetypeError(freetype::Error);

/// `freetype::Library::init` starts a library instance. Nothing is claimed of
/// it: it may fail for want of memory.
#[verifier::external_body]
fn init_library() -> (r: Result<freetype::Library, freetype::Error>) {
    freetype::Library::init()
}

/// The font file that a face was opened from.
pub uninterp spec fn path_of(face: freetype::Face) -> Seq<char>;

/// The pixel height that was last selected on a face.
pub uninterp spec fn height_of(face: freetype::Face) -> u32;

/// What the glyph slot of a face holds.
pub uninterp spec fn slot_of(face: freetype::Face) -> Slot;

/// FreeType did not open the font file at a path: the path was none it takes, or
/// the file on disk was not there, not readable or not a font.
pub uninterp spec fn unopened(path: Seq<char>) -> bool;

/// FreeType refused to select a pixel height for the font file at a path.
pub uninterp spec fn refuses_height(path: Seq<char>, height: u32) -> bool;

/// FreeType, asked to render a character at a pixel height from the font file at
/// a path, came to this outcome: an image, or none where it failed. The file on
/// disk decides which outcome that is, so there may be several.
pub uninterp spec fn rendered(
    path: Seq<char>,
    height: u32,
    codepoint: char,
    outcome: Option<Slot>,
) -> bool;

/// FreeType, asked where the font file at a path has a character, gave this
/// index, or none where the font lacks it. The file on disk decides.
pub uninterp spec fn indexed(path: Seq<char>, codepoint: char, index: Option<u32>) -> bool;

/// `freetype::Library::new_face` opens face 0 of the font file at a path. An
/// error tells that this file did not open. Whether it opens is not claimed: the
/// file on disk decides, so one path may open at one time and not at another.
#[verifier::external_body]
fn open_face(library: &freetype::Library, path: &str) -> (r: Result<
    freetype::Face,
    freetype::Error,
>)
    ensures
        match r {
            Ok(face) => path_of(face) == path@,
            Err(_) => unopened(path@),
        },
{
    library.new_face(path, 0)
}

/// `freetype::Face::set_pixel_sizes` selects a pixel height, with the width to
/// match, and leaves the font as it is. Whether it succeeds or refuses is not
/// claimed: the font decides which heights it has.
#[verifier::external_body]
fn select_size(face: &mut freetype::Face, size_px: u32) -> (r: Result<(), freetype::Error>)
    ensures
        path_of(*final(face)) == path_of(*old(face)),
        match r {
            Ok(_) => height_of(*final(face)) == size_px,
            Err(_) => refuses_height(path_of(*old(face)), size_px),
        },
{
    face.set_pixel_sizes(0, size_px)
}

/// `freetype::Face::get_char_index` looks a character up in the font, `None`
/// where the font lacks it. Which characters it has is not claimed: the font
/// decides.
#[verifier::external_body]
fn char_index(face: &freetype::Face, codepoint: char) -> (r: Option<u32>)
    ensures
        indexed(path_of(*face), codepoint, r),
{
    face.get_char_index(codepoint as usize)
}

/// `freetype::Face::load_char` renders a character at the selected height into
/// the face's glyph slot, and leaves the font and the height as they are.
/// Whether it succeeds is not claimed: the font decides.
#[verifier::external_body]
fn load_rendered(face: &mut freetype::Face, codepoint: char) -> (r: Result<(), freetype::Error>)
    ensures
        path_of(*final(face)) == path_of(*old(face)),
        height_of(*final(face)) == height_of(*old(face)),
        rendered(
            path_of(*old(face)),
            height_of(*old(face)),
            codepoint,
            match r {
                Ok(_) => Some(slot_of(*final(face))),
                Err(_) => None,
            },
        ),
{
    face.load_char(codepoint as usize, freetype::face::LoadFlag::RENDER)
}

/// `freetype::Face::glyph` gives the face's glyph slot; its fields are copied
/// out one by one. The slot has to hold an image that FreeType rendered: before
/// the first rendering, or after one that failed, its bitmap may have rows without
/// a buffer behind them, and there is nothing to copy.
#[verifier::external_body]
fn read_slot(face: &freetype::Face) -> (img: SlotImage)
    requires
        exists|codepoint: char| #[trigger]
            rendered(path_of(*face), height_of(*face), codepoint, Some(slot_of(*face))),
    ensures
        img@ == slot_of(*face),
{
    let slot = face.glyph();
    let bitmap = slot.bitmap();
    SlotImage {
        width: bitmap.width(),
        rows: bitmap.rows(),
        pitch: bitmap.pitch(),
        buffer: bitmap.buffer().to_vec(),
        left: slot.bitmap_left(),
        top: slot.bitmap_top(),
        advance: slot.advance().x as i64,
    }
}

/// A rendered glyph slot, as plain values.
pub struct SlotImage {
    pub width: i32,
    pub rows: i32,
    /// Bytes from one row to the next; negative when rows run upward.
    pub pitch: i32,
    pub buffer: Vec<u8>,
    pub left: i32,
    pub top: i32,
    /// Pen advance in 1/64 pixel.
    pub advance: i64,
}

/// A glyph slot as contracts speak of it.
pub struct Slot {
    pub width: i32,
    pub rows: i32,
    pub pitch: i32,
    pub buffer: Seq<u8>,
    pub left: i32,
    pub top: i32,
    pub advance: i64,
}

impl View for SlotImage {
    type V = Slot;

    open spec fn view(&self) -> Slot {
        Slot {
            width: self.width,
            rows: self.rows,
            pitch: self.pitch,
            buffer: self.buffer@,
            left: self.left,
            top: self.top,
            advance: self.advance,
        }
    }
}

impl Slot {
    pub open spec fn w(self) -> int {
        if self.width < 0 {
            0
        } else {
            self.width as int
        }
    }

    pub open spec fn h(self) -> int {
        if self.rows < 0 {
            0
        } else {
            self.rows as int
        }
    }

    pub open spec fn stride(self) -> int {
        if self.pitch < 0 {
            -self.pitch
        } else {
            self.pitch as int
        }
    }

    /// Where row `row` of the glyph, counted from the top, lies in the buffer.
    pub open spec fn row_start(self, row: int) -> int {
        if self.pitch < 0 {
            (self.h() - 1 - row) * self.stride()
        } else {
            row * self.stride()
        }
    }

    /// The buffer holds every row.
    pub open spec fn complete(self) -> bool {
        self.h() > 0 ==> (self.h() - 1) * self.stride() + self.w() <= self.buffer.len()
    }
}

/// Whole pixels of a length in 1/64 pixel.
pub open spec fn whole_pixels(v: i64) -> i32 {
    (v >> 6) as i32
}

/// The glyph a slot image holds: its rows from top to bottom, without the
/// padding between them.
pub open spec fn glyph_of_slot(slot: Slot, g: &GlyphBitmap) -> bool {
    &&& g.width == slot.w()
    &&& g.height == slot.h()
    &&& g.bearing_x == slot.left
    &&& g.bearing_y == slot.top
    &&& g.advance_x == whole_pixels(slot.advance)
    &&& g.alpha@ == Seq::new(
        (slot.h() * slot.w()) as nat,
        |i: int| slot.buffer[slot.row_start(i / slot.w()) + i % slot.w()],
    )
}

/// A glyph is what its slot holds: pixel for pixel from the top row down, whichever
/// way the slot's rows run, as far from the pen and from the baseline as the slot says,
/// with the whole pixels of the slot's advance.
pub proof fn law_glyph_is_its_slot(slot: Slot, g: &GlyphBitmap, col: int, row: int)
    requires
        glyph_of_slot(slot, g),
        0 <= col < slot.width,
        0 <= row < slot.rows,
    ensures
        g.width == slot.width,
        g.height == slot.rows,
        g.bearing_x == slot.left,
        g.bearing_y == slot.top,
        slot.pitch >= 0 ==> g.coverage(col, row) == slot.buffer[row * slot.pitch + col],
        slot.pitch < 0 ==> g.coverage(col, row) == slot.buffer[(slot.rows - 1 - row) * -slot.pitch
            + col],
        -0x20_0000_0000 <= slot.advance < 0x20_0000_0000 ==> 64 * g.advance_x <= slot.advance < 64
            * g.advance_x + 64,
{
    let (w, h) = (slot.w(), slot.h());
    let i = row * w + col;
    assert((row + 1) * w == row * w + w) by (nonlinear_arith);
    assert(0 <= row * w && (row + 1) * w <= h * w) by (nonlinear_arith)
        requires
            0 <= row,
            row + 1 <= h,
            w > 0,
    ;
    crate::renderer::frame::lemma_row_of_index(i, w, row);
    let v = slot.advance;
    if -0x20_0000_0000 <= v < 0x20_0000_0000 {
        let t = v >> 6;
        assert(64 * t <= v && v < 64 * t + 64 && -0x8000_0000 <= t && t < 0x8000_0000)
            by (bit_vector)
            requires
                t == v >> 6,
                -0x20_0000_0000 <= v,
                v < 0x20_0000_0000,
        ;
    }
}

/// Turn a slot image into a glyph. `None` exactly when the image's buffer is
/// too short for its rows.
pub fn bitmap_from_slot(img: &SlotImage) -> (r: Option<GlyphBitmap>)
    ensures
        r is Some <==> img@.complete(),
        r matches Some(g) ==> glyph_of_slot(img@, &g) && g.wf(),
{
    let w: usize = if img.width < 0 {
        0
    } else {
        img.width as usize
    };
    let h: usize = if img.rows < 0 {
        0
    } else {
        img.rows as usize
    };
    let stride: usize = if img.pitch < 0 {
        (-(img.pitch as i64)) as usize
    } else {
        img.pitch as usize
    };
    let len: usize = img.buffer.len();
    if h > 0 {
        assert(0 <= (h - 1) * stride <= 0x8000_0000 * 0x8000_0000) by (nonlinear_arith)
            requires
                1 <= h <= 0x8000_0000,
                0 <= stride <= 0x8000_0000,
        ;
        let bytes: u64 = (h as u64 - 1) * (stride as u64) + w as u64;
        if bytes > len as u64 {
            return None;
        }
    }
    let advance_x: i32 = (img.advance >> 6) as i32;
    let mut alpha: Vec<u8> = Vec::new();
    let mut row: usize = 0;
    while row < h
        invariant
            row <= h,
            w == img@.w(),
            h == img@.h(),
            stride == img@.stride(),
            len == img.buffer@.len(),
            img@.complete(),
            alpha@.len() == row * w,
            forall|i: int|
                0 <= i < alpha@.len() ==> #[trigger] alpha@[i] == img.buffer@[img@.row_start(i / img@.w())
                    + i % img@.w()],
        decreases h - row,
    {
        let src_row: usize = if img.pitch < 0 {
            h - 1 - row
        } else {
            row
        };
        proof {
            assert(0 <= src_row * stride <= (h - 1) * stride) by (nonlinear_arith)
                requires
                    0 <= src_row <= h - 1,
                    0 <= stride,
            ;
        }
        let start: usize = src_row * stride;
        let mut col: usize = 0;
        while col < w
            invariant
                col <= w,
                row < h,
                w == img@.w(),
                h == img@.h(),
                len == img.buffer@.len(),
                start == img@.row_start(row as int),
                start + w <= len,
                alpha@.len() == row * w + col,
                forall|i: int|
                    0 <= i < alpha@.len() ==> #[trigger] alpha@[i] == img.buffer@[img@.row_start(
                        i / img@.w(),
                    ) + i % img@.w()],
            decreases w - col,
        {
            proof {
                assert((row + 1) * w == row * w + w) by (nonlinear_arith);
                frame::lemma_row_of_index(row * w + col, w as int, row as int);
            }
            alpha.push(img.buffer[start + col]);
            col = col + 1;
        }
        proof {
            assert((row + 1) * w == row * w + w) by (nonlinear_arith);
        }
        row = row + 1;
    }
    proof {
        assert(0 <= h * w) by (nonlinear_arith)
            requires
                0 <= h,
                0 <= w,
        ;
        assert(alpha@ =~= Seq::new(
            (img@.h() * img@.w()) as nat,
            |i: int| img.buffer@[img@.row_start(i / img@.w()) + i % img@.w()],
        ));
    }
    Some(
        GlyphBitmap {
            width: w as u32,
            height: h as u32,
            bearing_x: img.left,
            bearing_y: img.top,
            advance_x,
            alpha,
        },
    )
}

// The cache.

/// Why a cache operation failed.
#[derive(Debug, Clone, Copy, PartialEq, Eq, Structural)]
pub enum GlyphError {
    /// FreeType did not start.
    LibraryInit,
    /// The font file did not open.
    OpenFace,
    /// No face is registered for the font and style.
    NoFont,
}

/// A key as one integer.
spec fn code_of(key: GlyphKey) -> int {
    key.codepoint as int + 0x1_0000_0000 * (key.size_px as int) + 0x1_0000_0000_0000_0000 * (
    key.font_id.0 as int) + (if key.style == FontStyle::Bold {
        0x1_0000_0000_0000_0000_0000_0000int
    } else {
        0int
    })
}

proof fn lemma_code_injective(a: GlyphKey, b: GlyphKey)
    requires
        code_of(a) == code_of(b),
    ensures
        a == b,
{
    let font = 0x1_0000_0000_0000_0000 * (a.font_id.0 - b.font_id.0);
    let size = 0x1_0000_0000 * (a.size_px - b.size_px);
    let (ca, cb) = (a.codepoint as u32 as int, b.codepoint as u32 as int);
    assert(a.codepoint as int == ca && b.codepoint as int == cb);
    assert(-0x1_0000_0000 < ca - cb < 0x1_0000_0000);
    assert(-0x1_0000_0000_0000_0000 < size + ca - cb < 0x1_0000_0000_0000_0000);
    assert(-0x1_0000_0000_0000_0000_0000_0000 < font + size + ca - cb
        < 0x1_0000_0000_0000_0000_0000_0000);
    assert(a.style == b.style);
    assert(font + size + ca - cb == 0);
    assert(a.font_id.0 == b.font_id.0);
    assert(a.size_px == b.size_px);
    assert(ca == cb);
}

fn key_code(key: GlyphKey) -> (c: u128)
    ensures
        c == code_of(key),
{
    let style: u128 = match key.style {
        FontStyle::Bold => 0x1_0000_0000_0000_0000_0000_0000,
        FontStyle::Regular => 0,
    };
    (key.codepoint as u128) + 0x1_0000_0000 * (key.size_px as u128) + 0x1_0000_0000_0000_0000 * (
    key.font_id.0 as u128) + style
}

struct FaceSlot {
    font_id: FontId,
    style: FontStyle,
    face: freetype::Face,
}

/// Glyph cache. Owned by one renderer.
pub struct GlyphCache {
    library: freetype::Library,
    faces: Vec<FaceSlot>,
    glyphs: HashMap<u128, GlyphBitmap>,
    /// The cached keys, each once.
    keys: Vec<GlyphKey>,
    /// Characters that some font lacked.
    missing_seen: HashSet<u32>,
    /// Those of them not reported yet.
    missing: Vec<char>,
}

/// A glyph is an image that FreeType rendered for a key, from a font file.
pub open spec fn is_rendering(g: &GlyphBitmap, path: Seq<char>, key: GlyphKey) -> bool {
    exists|slot: Slot| #[trigger]
        rendered(path, key.size_px, key.codepoint, Some(slot)) && slot.complete() && glyph_of_slot(
            slot,
            g,
        )
}

/// FreeType gave no image for a key from a font file: it refused the height, it
/// failed to render the character, or the image was short of its rows.
pub open spec fn no_image(path: Seq<char>, key: GlyphKey) -> bool {
    ||| refuses_height(path, key.size_px)
    ||| exists|outcome: Option<Slot>| #[trigger]
        rendered(path, key.size_px, key.codepoint, outcome) && match outcome {
            Some(slot) => !slot.complete(),
            None => true,
        }
}

/// FreeType told that some font lacks a character.
pub open spec fn is_lacked(codepoint: char) -> bool {
    exists|path: Seq<char>| #[trigger] indexed(path, codepoint, None)
}

/// Each font and style has one face.
spec fn distinct_slots(faces: Seq<FaceSlot>) -> bool {
    forall|i: int, j: int|
        #![trigger faces[i], faces[j]]
        0 <= i < j < faces.len() ==> !(faces[i].font_id == faces[j].font_id && faces[i].style
            == faces[j].style)
}

/// The same fonts stand at the same places.
spec fn slots_agree(a: Seq<FaceSlot>, b: Seq<FaceSlot>) -> bool {
    &&& a.len() == b.len()
    &&& forall|i: int|
        #![trigger a[i]]
        #![trigger b[i]]
        0 <= i < a.len() ==> a[i].font_id == b[i].font_id && a[i].style == b[i].style && path_of(
            a[i].face,
        ) == path_of(b[i].face)
}

impl GlyphCache {
    spec fn at_slot(&self, i: int, font_id: FontId, style: FontStyle) -> bool {
        0 <= i < self.faces@.len() && self.faces@[i].font_id == font_id && self.faces@[i].style
            == style
    }

    /// The font file registered for the font and style.
    pub closed spec fn font_path(&self, font_id: FontId, style: FontStyle) -> Option<Seq<char>> {
        if self.has_face(font_id, style) {
            Some(path_of(self.faces@[choose|i: int| self.at_slot(i, font_id, style)].face))
        } else {
            None
        }
    }

    /// A face is registered for the font and style.
    pub closed spec fn has_face(&self, font_id: FontId, style: FontStyle) -> bool {
        exists|i: int| self.at_slot(i, font_id, style)
    }

    /// The cached keys.
    pub closed spec fn cached(&self) -> Set<GlyphKey> {
        self.keys@.to_set()
    }

    /// The glyph cached for a key.
    pub closed spec fn glyph(&self, key: GlyphKey) -> Option<GlyphBitmap> {
        if self.glyphs@.contains_key(code_of(key) as u128) {
            Some(self.glyphs@[code_of(key) as u128])
        } else {
            None
        }
    }

    /// Keys and glyphs agree, and every cached glyph was rendered from the
    /// registered font.
    pub closed spec fn wf(&self) -> bool {
        &&& distinct_slots(self.faces@)
        &&& self.keys@.no_duplicates()
        &&& forall|k: GlyphKey| #[trigger]
            self.keys@.contains(k) <==> self.glyphs@.contains_key(code_of(k) as u128)
        &&& forall|k: GlyphKey| #[trigger]
            self.keys@.contains(k) ==> self.holds(k)
        &&& self.missing@.no_duplicates()
        &&& forall|c: char| #[trigger]
            self.missing@.contains(c) ==> self.missing_seen@.contains(c as u32)
    }

    /// The glyph stored for a key is a rendering from the registered font.
    spec fn holds(&self, k: GlyphKey) -> bool {
        &&& self.has_face(k.font_id, k.style)
        &&& self.glyphs@[code_of(k) as u128].wf()
        &&& is_rendering(
            &self.glyphs@[code_of(k) as u128],
            self.font_path(k.font_id, k.style)->0,
            k,
        )
    }

    /// The characters found missing so far.
    pub closed spec fn seen_missing(&self) -> Set<u32> {
        self.missing_seen@
    }

    /// The missing characters not reported yet.
    pub closed spec fn pending_missing(&self) -> Seq<char> {
        self.missing@
    }

    /// The same characters were found missing, and the same are not reported yet.
    pub open spec fn same_missing(&self, earlier: &Self) -> bool {
        self.seen_missing() == earlier.seen_missing() && self.pending_missing()
            == earlier.pending_missing()
    }

    /// Since `earlier` a character was found missing. It is to be reported only if
    /// it had not been seen before.
    pub open spec fn noted(&self, earlier: &Self, codepoint: char) -> bool {
        if earlier.seen_missing().contains(codepoint as u32) {
            self.same_missing(earlier)
        } else {
            self.seen_missing() == earlier.seen_missing().insert(codepoint as u32)
                && self.pending_missing() == earlier.pending_missing().push(codepoint)
        }
    }

    /// Since `earlier` FreeType told where the font file at a path has a character,
    /// and the character was noted exactly where the font lacks it.
    pub open spec fn looked_for(&self, earlier: &Self, path: Seq<char>, codepoint: char) -> bool {
        exists|index: Option<u32>| #[trigger]
            indexed(path, codepoint, index) && (if index is None {
                self.noted(earlier, codepoint)
            } else {
                self.same_missing(earlier)
            })
    }

    /// FreeType came to an outcome for a key, and the cache holds the image, if
    /// there was one and it was complete.
    pub open spec fn holds_outcome(&self, path: Seq<char>, key: GlyphKey) -> bool {
        exists|outcome: Option<Slot>| #[trigger]
            rendered(path, key.size_px, key.codepoint, outcome) && match outcome {
                Some(slot) if slot.complete() => self.glyph(key) matches Some(g)
                    && glyph_of_slot(slot, &g),
                _ => self.glyph(key) is None,
            }
    }

    /// What was not cached in `earlier` has been rendered from the font file at a
    /// path: nothing came of it where FreeType refused the height; otherwise the
    /// character was looked for, and what FreeType made of it is cached.
    pub open spec fn tried(&self, earlier: &Self, path: Seq<char>, key: GlyphKey) -> bool {
        ||| refuses_height(path, key.size_px) && self.same_missing(earlier) && self.glyph(
            key,
        ) is None
        ||| self.looked_for(earlier, path, key.codepoint) && self.holds_outcome(path, key)
    }

    /// A key is cached, or FreeType gave no image for it from the registered font.
    pub open spec fn settled(&self, key: GlyphKey) -> bool {
        self.glyph(key) is Some || (self.font_path(key.font_id, key.style) matches Some(path)
            && no_image(path, key))
    }

    /// Every printable ASCII character of a font, size and style is cached, or
    /// FreeType gave no image for it.
    pub open spec fn preloaded(&self, font_id: FontId, size_px: u32, style: FontStyle) -> bool {
        forall|c: char|
            0x20 <= c as int <= 0x7e ==> #[trigger] self.settled(
                key_for(font_id, size_px, style, c),
            )
    }

    /// Since `earlier` characters were found missing. They are to be reported after
    /// those that were before, each once and only if it had not been seen before, and
    /// each is one that FreeType told some font lacks.
    pub open spec fn reports(&self, earlier: &Self) -> bool {
        let n = earlier.pending_missing().len();
        &&& n <= self.pending_missing().len()
        &&& forall|i: int|
            0 <= i < n ==> #[trigger] self.pending_missing()[i] == earlier.pending_missing()[i]
        &&& forall|i: int|
            n <= i < self.pending_missing().len() ==> !earlier.seen_missing().contains(
                (#[trigger] self.pending_missing()[i]) as u32,
            ) && is_lacked(self.pending_missing()[i])
        &&& forall|c: u32| #[trigger]
            self.seen_missing().contains(c) <==> earlier.seen_missing().contains(c) || exists|
                i: int,
            |
                n <= i < self.pending_missing().len() && #[trigger] self.pending_missing()[i] as u32
                    == c
    }

    /// Since `earlier` no face changed and no glyph left the cache, and characters
    /// were reported at most.
    pub open spec fn extends(&self, earlier: &Self) -> bool {
        &&& self.same_faces(earlier)
        &&& self.reports(earlier)
        &&& forall|k: GlyphKey| (#[trigger] earlier.glyph(k)) is Some ==> self.glyph(k)
            == earlier.glyph(k)
    }

    /// The same faces are registered in both.
    pub open spec fn same_faces(&self, other: &Self) -> bool {
        forall|f: FontId, s: FontStyle| #[trigger]
            self.has_face(f, s) == other.has_face(f, s) && self.font_path(f, s)
                == other.font_path(f, s)
    }

    /// The same glyphs are cached in both.
    pub open spec fn same_glyphs(&self, other: &Self) -> bool {
        forall|k: GlyphKey| #[trigger] self.glyph(k) == other.glyph(k)
    }

    /// A well-formed cache holds a glyph for exactly the cached keys, which
    /// are finitely many, and each was rendered for its key from the font file
    /// that is registered.
    pub proof fn law_cached_keys(&self, key: GlyphKey)
        requires
            self.wf(),
        ensures
            self.cached().finite(),
            self.glyph(key) is Some <==> self.cached().contains(key),
            self.glyph(key) matches Some(g) ==> g.wf() && self.has_face(key.font_id, key.style)
                && (self.font_path(key.font_id, key.style) matches Some(path) && is_rendering(
                &g,
                path,
                key,
            )),
    {
        self.keys@.unique_seq_to_set();
        assert(self.keys@.contains(key) <==> self.cached().contains(key));
    }

    /// A character that was found missing is reported once: once the report was
    /// handed over, it does not come up again, whatever else is rendered.
    pub proof fn law_missing_reported_once(&self, taken: &Self, later: &Self, codepoint: char)
        requires
            self.wf(),
            taken.seen_missing() == self.seen_missing(),
            taken.pending_missing() == Seq::<char>::empty(),
            later.extends(taken),
            self.pending_missing().contains(codepoint) || self.seen_missing().contains(
                codepoint as u32,
            ),
        ensures
            later.seen_missing().contains(codepoint as u32),
            !later.pending_missing().contains(codepoint),
    {
        assert(taken.seen_missing().contains(codepoint as u32));
        assert(later.seen_missing().contains(codepoint as u32));
    }

    /// No glyph is cached, no face registered, and no character found missing.
    pub open spec fn blank(&self) -> bool {
        &&& self.cached() == Set::<GlyphKey>::empty()
        &&& forall|f: FontId, s: FontStyle| !#[trigger] self.has_face(f, s)
        &&& self.seen_missing() == Set::<u32>::empty()
        &&& self.pending_missing() == Seq::<char>::empty()
    }

    /// An empty cache with no fonts, for a library instance.
    pub fn with_library(library: freetype::Library) -> (c: GlyphCache)
        ensures
            c.wf(),
            c.blank(),
    {
        broadcast use vstd::std_specs::hash::group_hash_axioms;

        let c = GlyphCache {
            library,
            faces: Vec::new(),
            glyphs: HashMap::new(),
            keys: Vec::new(),
            missing_seen: HashSet::new(),
            missing: Vec::new(),
        };
        assert(c.cached() =~= Set::<GlyphKey>::empty());
        c
    }

    /// An empty cache with no fonts, for a library instance of its own. Whether
    /// FreeType starts one is not stated.
    pub fn new() -> (r: Result<Self, GlyphError>)
        ensures
            r matches Ok(c) ==> c.wf() && c.blank(),
            r matches Err(e) ==> e == GlyphError::LibraryInit,
    {
        match init_library() {
            Err(_) => Err(GlyphError::LibraryInit),
            Ok(library) => Ok(GlyphCache::with_library(library)),
        }
    }

    fn find_face(&self, font_id: FontId, style: FontStyle) -> (r: Option<usize>)
        ensures
            r is Some <==> self.has_face(font_id, style),
            r matches Some(i) ==> self.at_slot(i as int, font_id, style),
    {
        let mut i: usize = 0;
        while i < self.faces.len()
            invariant
                i <= self.faces@.len(),
                forall|k: int| 0 <= k < i ==> !#[trigger] self.at_slot(k, font_id, style),
            decreases self.faces@.len() - i,
        {
            if self.faces[i].font_id == font_id && self.faces[i].style == style {
                assert(self.at_slot(i as int, font_id, style));
                return Some(i);
            }
            i = i + 1;
        }
        None
    }

    /// Whether a face is registered for the font and style.
    pub fn has_font(&self, font_id: FontId, style: FontStyle) -> (r: bool)
        ensures
            r == self.has_face(font_id, style),
    {
        self.find_face(font_id, style).is_some()
    }

    /// The glyph cached for a key, if any.
    pub fn get(&self, key: GlyphKey) -> (r: Option<&GlyphBitmap>)
        ensures
            r is Some <==> self.glyph(key) is Some,
            r matches Some(g) ==> self.glyph(key) == Some(*g),
    {
        broadcast use vstd::std_specs::hash::group_hash_axioms;

        self.glyphs.get(&key_code(key))
    }

    /// Number of cached glyphs.
    pub fn len(&self) -> (n: usize)
        requires
            self.wf(),
        ensures
            n == self.cached().len(),
    {
        proof {
            self.keys@.unique_seq_to_set();
        }
        self.keys.len()
    }

    /// Whether no glyph is cached.
    pub fn is_empty(&self) -> (r: bool)
        requires
            self.wf(),
        ensures
            r <==> self.cached() == Set::<GlyphKey>::empty(),
    {
        proof {
            self.keys@.unique_seq_to_set();
            if self.keys@.len() > 0 {
                assert(self.keys@.contains(self.keys@[0]));
                assert(self.cached().contains(self.keys@[0]));
            } else {
                assert(self.cached() =~= Set::<GlyphKey>::empty());
            }
        }
        self.keys.len() == 0
    }
}

impl GlyphCache {
    /// Forget every glyph of a font and style.
    fn forget(&mut self, font_id: FontId, style: FontStyle)
        requires
            old(self).wf(),
        ensures
            final(self).wf(),
            final(self).faces@ == old(self).faces@,
            final(self).same_missing(old(self)),
            forall|k: GlyphKey| #[trigger]
                final(self).glyph(k) == (if k.font_id == font_id && k.style == style {
                    None
                } else {
                    old(self).glyph(k)
                }),
    {
        broadcast use vstd::std_specs::hash::group_hash_axioms;

        let ghost before = *self;
        let mut kept: Vec<GlyphKey> = Vec::new();
        let mut i: usize = 0;
        while i < self.keys.len()
            invariant
                i <= self.keys@.len(),
                before.wf(),
                self.keys@ == before.keys@,
                self.faces@ == before.faces@,
                self.missing@ == before.missing@,
                self.missing_seen@ == before.missing_seen@,
                kept@.no_duplicates(),
                forall|k: GlyphKey| #[trigger]
                    kept@.contains(k) <==> before.keys@.take(i as int).contains(k) && !(k.font_id
                        == font_id && k.style == style),
                forall|k: GlyphKey| #[trigger]
                    self.glyphs@.contains_key(code_of(k) as u128) <==> before.keys@.contains(k)
                        && !(before.keys@.take(i as int).contains(k) && k.font_id == font_id
                        && k.style == style),
                forall|c: u128| #[trigger]
                    self.glyphs@.contains_key(c) ==> before.glyphs@.contains_key(c)
                        && self.glyphs@[c] == before.glyphs@[c],
            decreases self.keys@.len() - i,
        {
            let key: GlyphKey = self.keys[i];
            let ghost taken = before.keys@.take(i as int);
            let ghost kept0 = kept@;
            let ghost glyphs0 = self.glyphs@;
            proof {
                assert(before.keys@.take(i + 1) =~= taken.push(key));
                assert forall|k: GlyphKey| #[trigger]
                    before.keys@.take(i + 1).contains(k) <==> taken.contains(k) || k == key by {
                    lemma_push_contains(taken, key, k);
                }
                if taken.contains(key) {
                    let j = choose|j: int| 0 <= j < taken.len() && taken[j] == key;
                    assert(before.keys@[j] == before.keys@[i as int]);
                }
                assert(before.keys@.contains(key));
            }
            if key.font_id == font_id && key.style == style {
                self.glyphs.remove(&key_code(key));
                proof {
                    assert forall|k: GlyphKey| #[trigger]
                        self.glyphs@.contains_key(code_of(k) as u128) <==> before.keys@.contains(k)
                            && !(before.keys@.take(i + 1).contains(k) && k.font_id == font_id
                            && k.style == style) by {
                        if code_of(k) == code_of(key) {
                            lemma_code_injective(k, key);
                        }
                    }
                }
            } else {
                kept.push(key);
                proof {
                    assert forall|k: GlyphKey| #[trigger]
                        kept@.contains(k) <==> kept0.contains(k) || k == key by {
                        lemma_push_contains(kept0, key, k);
                    }
                    assert(!kept0.contains(key));
                }
            }
            i = i + 1;
        }
        assert(before.keys@.take(i as int) =~= before.keys@);
        self.keys = kept;
        proof {
            assert forall|k: GlyphKey| #[trigger]
                self.glyph(k) == (if k.font_id == font_id && k.style == style {
                    None
                } else {
                    before.glyph(k)
                }) by {
                assert(before.keys@.contains(k) <==> before.glyphs@.contains_key(
                    code_of(k) as u128,
                ));
                assert(self.keys@.contains(k) <==> self.glyphs@.contains_key(code_of(k) as u128));
            }
            lemma_slots_agree(&before, self);
            assert forall|k: GlyphKey| #[trigger] self.keys@.contains(k) implies self.holds(k) by {
                assert(before.keys@.contains(k));
                assert(before.holds(k));
                assert(self.glyphs@.contains_key(code_of(k) as u128));
            }
        }
    }

    /// Put an opened face in the place of a font and style, and forget the glyphs
    /// that came from the face before it.
    pub fn install_face(&mut self, font_id: FontId, style: FontStyle, face: freetype::Face)
        requires
            old(self).wf(),
        ensures
            final(self).wf(),
            forall|f: FontId, s: FontStyle| #[trigger]
                final(self).font_path(f, s) == (if f == font_id && s == style {
                    Some(path_of(face))
                } else {
                    old(self).font_path(f, s)
                }),
            forall|f: FontId, s: FontStyle| #[trigger]
                final(self).has_face(f, s) <==> old(self).has_face(f, s) || (f == font_id && s
                    == style),
            forall|k: GlyphKey| #[trigger]
                final(self).glyph(k) == (if k.font_id == font_id && k.style == style {
                    None
                } else {
                    old(self).glyph(k)
                }),
            final(self).same_missing(old(self)),
    {
        self.forget(font_id, style);
        let ghost before = *self;
        let slot = FaceSlot { font_id, style, face };
        match self.find_face(font_id, style) {
            Some(i) => {
                self.faces.set(i, slot);
                proof {
                    lemma_slot_placed(&before, self, i as int);
                }
            },
            None => {
                self.faces.push(slot);
                proof {
                    lemma_slot_placed(&before, self, before.faces@.len() as int);
                }
            },
        }
        proof {
            assert forall|k: GlyphKey| #[trigger] self.glyph(k) == before.glyph(k) by {}
            assert forall|k: GlyphKey| #[trigger] self.keys@.contains(k) implies self.holds(
                k,
            ) by {
                assert(before.keys@.contains(k));
                assert(before.holds(k));
                assert(before.glyph(k) is Some);
                assert(self.font_path(k.font_id, k.style) == before.font_path(
                    k.font_id,
                    k.style,
                ));
            }
            lemma_slots_agree(old(self), &before);
            assert forall|f: FontId, s: FontStyle| #[trigger]
                self.font_path(f, s) == (if f == font_id && s == style {
                    Some(path_of(face))
                } else {
                    old(self).font_path(f, s)
                }) by {
                assert(old(self).has_face(f, s) == before.has_face(f, s));
            }
            assert forall|f: FontId, s: FontStyle| #[trigger]
                self.has_face(f, s) <==> old(self).has_face(f, s) || (f == font_id && s
                    == style) by {
                assert(old(self).has_face(f, s) == before.has_face(f, s));
                assert(self.font_path(f, s) is Some <==> self.has_face(f, s));
            }
        }
    }

    /// Register a font file for a font and style. Registering again replaces
    /// the face and forgets the glyphs that came from it.
    pub fn register_font(&mut self, font_id: FontId, style: FontStyle, path: &str) -> (r: Result<
        (),
        GlyphError,
    >)
        requires
            old(self).wf(),
        ensures
            final(self).wf(),
            r matches Err(e) ==> e == GlyphError::OpenFace && unopened(path@)
                && *final(self) == *old(self),
            r is Ok ==> forall|f: FontId, s: FontStyle| #[trigger]
                final(self).font_path(f, s) == (if f == font_id && s == style {
                    Some(path@)
                } else {
                    old(self).font_path(f, s)
                }),
            r is Ok ==> forall|f: FontId, s: FontStyle| #[trigger]
                final(self).has_face(f, s) <==> old(self).has_face(f, s) || (f == font_id && s
                    == style),
            r is Ok ==> final(self).same_missing(old(self)),
            r is Ok ==> forall|k: GlyphKey| #[trigger]
                final(self).glyph(k) == (if k.font_id == font_id && k.style == style {
                    None
                } else {
                    old(self).glyph(k)
                }),
    {
        match open_face(&self.library, path) {
            Err(_) => Err(GlyphError::OpenFace),
            Ok(face) => {
                self.install_face(font_id, style, face);
                Ok(())
            },
        }
    }

    /// Cache the glyph a slot image holds. The answer tells whether there was
    /// one: an image with too short a buffer is dropped.
    fn store(&mut self, key: GlyphKey, img: &SlotImage) -> (stored: bool)
        requires
            old(self).wf(),
            old(self).has_face(key.font_id, key.style),
            rendered(
                old(self).font_path(key.font_id, key.style)->0,
                key.size_px,
                key.codepoint,
                Some(img@),
            ),
            old(self).glyph(key) is None,
        ensures
            final(self).wf(),
            final(self).same_faces(old(self)),
            stored == img@.complete(),
            forall|k: GlyphKey|
                k != key ==> #[trigger] final(self).glyph(k) == old(self).glyph(k),
            stored ==> (final(self).glyph(key) matches Some(g) && glyph_of_slot(img@, &g)),
            !stored ==> final(self).glyph(key) is None,
            final(self).seen_missing() == old(self).seen_missing(),
            final(self).pending_missing() == old(self).pending_missing(),
    {
        broadcast use vstd::std_specs::hash::group_hash_axioms;

        let ghost before = *self;
        match bitmap_from_slot(img) {
            None => false,
            Some(g) => {
                self.glyphs.insert(key_code(key), g);
                self.keys.push(key);
                proof {
                    assert(self.keys@ == before.keys@.push(key));
                    assert forall|k: GlyphKey| #[trigger]
                        self.keys@.contains(k) <==> before.keys@.contains(k) || k == key by {
                        lemma_push_contains(before.keys@, key, k);
                    }
                    assert(!before.keys@.contains(key));
                    assert forall|k: GlyphKey| k != key implies code_of(k) != code_of(key) by {
                        if code_of(k) == code_of(key) {
                            lemma_code_injective(k, key);
                        }
                    }
                    lemma_slots_agree(&before, self);
                    assert forall|k: GlyphKey| #[trigger] self.keys@.contains(k) implies self.holds(
                        k,
                    ) by {
                        if k != key {
                            assert(before.keys@.contains(k));
                            assert(before.holds(k));
                        }
                    }
                }
                true
            },
        }
    }

    /// Note that some font lacks a character.
    fn note_missing(&mut self, codepoint: char)
        requires
            old(self).wf(),
        ensures
            final(self).wf(),
            final(self).same_faces(old(self)),
            final(self).same_glyphs(old(self)),
            final(self).noted(old(self), codepoint),
            final(self).faces@ == old(self).faces@,
    {
        broadcast use vstd::std_specs::hash::group_hash_axioms;

        let ghost before = *self;
        if self.missing_seen.insert(codepoint as u32) {
            self.missing.push(codepoint);
            proof {
                assert(!before.missing@.contains(codepoint));
                assert forall|c: char| #[trigger]
                    self.missing@.contains(c) <==> before.missing@.contains(c) || c
                        == codepoint by {
                    lemma_push_contains(before.missing@, codepoint, c);
                }
            }
        } else {
            assert(self.missing_seen@ =~= before.missing_seen@);
        }
        proof {
            lemma_slots_agree(&before, self);
            assert forall|k: GlyphKey| #[trigger] self.keys@.contains(k) implies self.holds(k) by {
                assert(before.holds(k));
            }
        }
    }
}

proof fn lemma_push_contains<T>(s: Seq<T>, a: T, x: T)
    ensures
        s.push(a).contains(x) <==> s.contains(x) || x == a,
{
    let p = s.push(a);
    if s.contains(x) {
        let j = choose|j: int| 0 <= j < s.len() && s[j] == x;
        assert(p[j] == x);
    }
    if x == a {
        assert(p[s.len() as int] == x);
    }
    if p.contains(x) && x != a {
        let j = choose|j: int| 0 <= j < p.len() && p[j] == x;
        assert(s[j] == x);
    }
}

/// A key that was tried is settled.
proof fn lemma_settled(before: &GlyphCache, after: &GlyphCache, key: GlyphKey)
    requires
        before.has_face(key.font_id, key.style),
        after.same_faces(before),
        before.glyph(key) is Some ==> after.glyph(key) is Some,
        before.font_path(key.font_id, key.style) matches Some(path) && (before.glyph(key) is None
            ==> after.tried(before, path, key)),
    ensures
        after.settled(key),
{
    assert(after.has_face(key.font_id, key.style) == before.has_face(key.font_id, key.style));
    let path = before.font_path(key.font_id, key.style)->0;
    if after.glyph(key) is None && !refuses_height(path, key.size_px) {
        assert(after.holds_outcome(path, key));
    }
}

/// A settled key stays settled while the cache grows.
pub proof fn lemma_settled_stays(before: &GlyphCache, after: &GlyphCache, key: GlyphKey)
    requires
        before.settled(key),
        after.extends(before),
    ensures
        after.settled(key),
{
    assert(after.has_face(key.font_id, key.style) == before.has_face(key.font_id, key.style));
}

/// What was rendered ahead stays so while the cache grows.
pub proof fn lemma_preloaded_stays(
    before: &GlyphCache,
    after: &GlyphCache,
    font_id: FontId,
    size_px: u32,
    style: FontStyle,
)
    requires
        before.preloaded(font_id, size_px, style),
        after.extends(before),
    ensures
        after.preloaded(font_id, size_px, style),
{
    assert forall|c: char| 0x20 <= c as int <= 0x7e implies #[trigger] after.settled(
        key_for(font_id, size_px, style, c),
    ) by {
        assert(before.settled(key_for(font_id, size_px, style, c)));
        lemma_settled_stays(before, after, key_for(font_id, size_px, style, c));
    }
}

/// What was tried for a key was reported.
proof fn lemma_tried_reports(before: &GlyphCache, after: &GlyphCache, path: Seq<char>, key: GlyphKey)
    requires
        after.tried(before, path, key) || after.same_missing(before),
    ensures
        after.reports(before),
{
    let (p, q) = (before.pending_missing(), after.pending_missing());
    if !after.same_missing(before) {
        assert(after.noted(before, key.codepoint) && is_lacked(key.codepoint));
        assert(q == p.push(key.codepoint));
        assert(q[p.len() as int] == key.codepoint);
        assert forall|c: u32| #[trigger]
            after.seen_missing().contains(c) <==> before.seen_missing().contains(c) || exists|
                i: int,
            | p.len() <= i < q.len() && #[trigger] q[i] as u32 == c by {
            if c == key.codepoint as u32 {
                assert(q[p.len() as int] as u32 == c);
            }
        }
    }
}

/// What was reported in two steps was reported.
proof fn lemma_reports_trans(first: &GlyphCache, before: &GlyphCache, after: &GlyphCache)
    requires
        before.reports(first),
        after.reports(before),
    ensures
        after.reports(first),
{
    let (p, q, r) = (first.pending_missing(), before.pending_missing(), after.pending_missing());
    assert forall|i: int| 0 <= i < p.len() implies #[trigger] r[i] == p[i] by {
        assert(q[i] == p[i]);
    }
    assert forall|i: int| p.len() <= i < r.len() implies !first.seen_missing().contains(
        (#[trigger] r[i]) as u32,
    ) && is_lacked(r[i]) by {
        if i < q.len() {
            assert(r[i] == q[i]);
        } else {
            assert(!before.seen_missing().contains(r[i] as u32));
        }
    }
    assert forall|c: u32| #[trigger]
        after.seen_missing().contains(c) <==> first.seen_missing().contains(c) || exists|i: int|
            p.len() <= i < r.len() && #[trigger] r[i] as u32 == c by {
        assert(after.seen_missing().contains(c) <==> before.seen_missing().contains(c) || exists|
            i: int,
        | q.len() <= i < r.len() && #[trigger] r[i] as u32 == c);
        assert(before.seen_missing().contains(c) <==> first.seen_missing().contains(c) || exists|
            i: int,
        | p.len() <= i < q.len() && #[trigger] q[i] as u32 == c);
        if exists|i: int| p.len() <= i < q.len() && #[trigger] q[i] as u32 == c {
            let i = choose|i: int| p.len() <= i < q.len() && #[trigger] q[i] as u32 == c;
            assert(r[i] as u32 == c);
        }
        if exists|i: int| p.len() <= i < r.len() && #[trigger] r[i] as u32 == c {
            let i = choose|i: int| p.len() <= i < r.len() && #[trigger] r[i] as u32 == c;
            if i < q.len() {
                assert(q[i] as u32 == c);
            }
        }
    }
}

/// A cache that grew twice grew.
pub proof fn lemma_extends_trans(first: &GlyphCache, before: &GlyphCache, after: &GlyphCache)
    requires
        before.extends(first),
        after.extends(before),
    ensures
        after.extends(first),
{
    lemma_reports_trans(first, before, after);
    assert forall|f: FontId, s: FontStyle| #[trigger]
        after.has_face(f, s) == first.has_face(f, s) && after.font_path(f, s)
            == first.font_path(f, s) by {
        assert(after.has_face(f, s) == before.has_face(f, s));
    }
    assert forall|k: GlyphKey| (#[trigger] first.glyph(k)) is Some implies after.glyph(k)
        == first.glyph(k) by {
        assert(before.glyph(k) == first.glyph(k));
    }
}

/// The fonts stay registered while every slot keeps its font.
proof fn lemma_slots_agree(a: &GlyphCache, b: &GlyphCache)
    requires
        slots_agree(a.faces@, b.faces@),
        distinct_slots(a.faces@),
    ensures
        a.same_faces(b),
        b.same_faces(a),
        distinct_slots(b.faces@),
{
    assert forall|f: FontId, s: FontStyle| #[trigger]
        a.has_face(f, s) == b.has_face(f, s) && a.font_path(f, s) == b.font_path(f, s) by {
        lemma_one_slot(a, b, f, s);
    }
    assert forall|f: FontId, s: FontStyle| #[trigger]
        b.has_face(f, s) == a.has_face(f, s) && b.font_path(f, s) == a.font_path(f, s) by {
        lemma_one_slot(a, b, f, s);
    }
}

proof fn lemma_one_slot(a: &GlyphCache, b: &GlyphCache, f: FontId, s: FontStyle)
    requires
        slots_agree(a.faces@, b.faces@),
        distinct_slots(a.faces@),
    ensures
        a.has_face(f, s) == b.has_face(f, s),
        a.font_path(f, s) == b.font_path(f, s),
{
    assert forall|i: int| a.at_slot(i, f, s) == b.at_slot(i, f, s) by {}
    if a.has_face(f, s) {
        let i = choose|i: int| a.at_slot(i, f, s);
        assert(b.at_slot(i, f, s));
        let j = choose|j: int| b.at_slot(j, f, s);
        assert(a.at_slot(j, f, s));
        assert(i == j);
    }
    if b.has_face(f, s) {
        let j = choose|j: int| b.at_slot(j, f, s);
        assert(a.at_slot(j, f, s));
    }
}

/// Putting a face at a place, its own or a new one, registers its font and
/// leaves the others.
proof fn lemma_slot_placed(a: &GlyphCache, b: &GlyphCache, at: int)
    requires
        distinct_slots(a.faces@),
        0 <= at < b.faces@.len(),
        at == a.faces@.len() && b.faces@ == a.faces@.push(b.faces@[at]) || (at < a.faces@.len()
            && b.faces@ == a.faces@.update(at, b.faces@[at]) && a.at_slot(
            at,
            b.faces@[at].font_id,
            b.faces@[at].style,
        )),
        at == a.faces@.len() ==> !a.has_face(b.faces@[at].font_id, b.faces@[at].style),
    ensures
        distinct_slots(b.faces@),
        forall|f: FontId, s: FontStyle| #[trigger]
            b.font_path(f, s) == (if f == b.faces@[at].font_id && s == b.faces@[at].style {
                Some(path_of(b.faces@[at].face))
            } else {
                a.font_path(f, s)
            }),
{
    let (id, style) = (b.faces@[at].font_id, b.faces@[at].style);
    assert(forall|i: int| 0 <= i < a.faces@.len() && i != at ==> b.faces@[i] == a.faces@[i]);
    assert forall|i: int, j: int|
        #![trigger b.faces@[i], b.faces@[j]]
        0 <= i < j < b.faces@.len() implies !(b.faces@[i].font_id == b.faces@[j].font_id
        && b.faces@[i].style == b.faces@[j].style) by {
        if at == a.faces@.len() && j == at {
            assert(!a.at_slot(i, id, style));
        }
        if i < a.faces@.len() && j < a.faces@.len() {
            assert(a.faces@[i].font_id != a.faces@[j].font_id || a.faces@[i].style
                != a.faces@[j].style);
        }
    }
    assert forall|f: FontId, s: FontStyle| #[trigger]
        b.font_path(f, s) == (if f == id && s == style {
            Some(path_of(b.faces@[at].face))
        } else {
            a.font_path(f, s)
        }) by {
        if f == id && s == style {
            assert(b.at_slot(at, f, s));
            let j = choose|j: int| b.at_slot(j, f, s);
            assert(j == at);
        } else {
            assert forall|i: int| a.at_slot(i, f, s) == b.at_slot(i, f, s) by {}
            if a.has_face(f, s) {
                let i = choose|i: int| a.at_slot(i, f, s);
                assert(b.at_slot(i, f, s));
                let j = choose|j: int| b.at_slot(j, f, s);
                assert(a.at_slot(j, f, s));
                assert(i == j);
            }
            if b.has_face(f, s) {
                let j = choose|j: int| b.at_slot(j, f, s);
                assert(a.at_slot(j, f, s));
            }
        }
    }
}

/// Render a character at the selected size. `None` where the face refuses it.
fn render(face: &mut freetype::Face, codepoint: char) -> (r: Option<SlotImage>)
    ensures
        path_of(*final(face)) == path_of(*old(face)),
        height_of(*final(face)) == height_of(*old(face)),
        rendered(
            path_of(*old(face)),
            height_of(*old(face)),
            codepoint,
            match r {
                Some(img) => Some(img@),
                None => None,
            },
        ),
{
    match load_rendered(face, codepoint) {
        Err(_) => None,
        Ok(()) => Some(read_slot(face)),
    }
}

impl GlyphCache {
    /// Render the glyph for a key from the face at a place, and cache it.
    fn rasterize(&mut self, key: GlyphKey, at: usize)
        requires
            old(self).wf(),
            old(self).at_slot(at as int, key.font_id, key.style),
            old(self).glyph(key) is None,
        ensures
            final(self).wf(),
            final(self).same_faces(old(self)),
            final(self).tried(
                old(self),
                old(self).font_path(key.font_id, key.style)->0,
                key,
            ),
            forall|k: GlyphKey|
                k != key ==> #[trigger] final(self).glyph(k) == old(self).glyph(k),
    {
        let ghost first = *self;
        let face: &mut freetype::Face = &mut self.faces[at].face;
        let selected: bool = select_size(face, key.size_px).is_ok();
        let mut missing: bool = false;
        let mut img: Option<SlotImage> = None;
        let ghost path = first.font_path(key.font_id, key.style)->0;
        let ghost mut told: Option<u32> = None;
        if selected {
            let index: Option<u32> = char_index(face, key.codepoint);
            missing = index.is_none();
            img = render(face, key.codepoint);
            proof {
                told = index;
            }
        }
        let ghost outcome: Option<Slot> = match &img {
            Some(i) => Some(i@),
            None => None,
        };
        proof {
            assert(slots_agree(first.faces@, self.faces@));
            lemma_slots_agree(&first, self);
            assert forall|k: GlyphKey| #[trigger] self.keys@.contains(k) implies self.holds(k) by {
                assert(first.holds(k));
            }
            let i = choose|i: int| first.at_slot(i, key.font_id, key.style);
            assert(i == at);
        }
        if missing {
            self.note_missing(key.codepoint);
        }
        match img {
            None => {},
            Some(img) => {
                self.store(key, &img);
            },
        }
        proof {
            if selected {
                assert(indexed(path, key.codepoint, told));
                assert(rendered(path, key.size_px, key.codepoint, outcome));
            } else {
                assert(refuses_height(path, key.size_px));
            }
        }
    }

    /// The glyph for a key, rendered and cached on first use. `None` where no
    /// face is registered for the font and style, or FreeType has no image. Which
    /// image there is, if any, the font file decides.
    pub fn get_or_rasterize(&mut self, key: GlyphKey) -> (r: Option<&GlyphBitmap>)
        requires
            old(self).wf(),
        ensures
            final(self).wf(),
            final(self).extends(old(self)),
            match old(self).font_path(key.font_id, key.style) {
                Some(path) if old(self).glyph(key) is None => final(self).tried(
                    old(self),
                    path,
                    key,
                ),
                _ => final(self).same_missing(old(self)) && final(self).glyph(key) == old(
                    self,
                ).glyph(key),
            },
            forall|k: GlyphKey|
                k != key ==> #[trigger] final(self).glyph(k) == old(self).glyph(k),
            r is Some <==> final(self).glyph(key) is Some,
            r matches Some(g) ==> final(self).glyph(key) == Some(*g) && g.wf() && (old(
                self,
            ).font_path(key.font_id, key.style) matches Some(path) && is_rendering(g, path, key)),
            old(self).glyph(key) is Some ==> final(self).glyph(key) == old(self).glyph(key),
            !old(self).has_face(key.font_id, key.style) ==> r is None,
    {
        proof {
            self.law_cached_keys(key);
        }
        if self.get(key).is_none() {
            match self.find_face(key.font_id, key.style) {
                None => {},
                Some(i) => {
                    self.rasterize(key, i);
                },
            }
        }
        proof {
            self.law_cached_keys(key);
            lemma_tried_reports(
                old(self),
                self,
                old(self).font_path(key.font_id, key.style)->0,
                key,
            );
        }
        self.get(key)
    }
}

/// The key of a character of a text.
pub open spec fn key_for(font_id: FontId, size_px: u32, style: FontStyle, codepoint: char) -> GlyphKey {
    GlyphKey { font_id, size_px, style, codepoint }
}

/// How many of the printable ASCII characters before `end` are cached.
pub open spec fn ascii_cached(
    cache: &GlyphCache,
    font_id: FontId,
    size_px: u32,
    style: FontStyle,
    end: int,
) -> int
    decreases end,
{
    if end <= 0x20 {
        0
    } else {
        ascii_cached(cache, font_id, size_px, style, end - 1) + (if cache.glyph(
            key_for(font_id, size_px, style, (end - 1) as char),
        ) is Some {
            1int
        } else {
            0int
        })
    }
}

proof fn lemma_ascii_cached_stable(
    a: &GlyphCache,
    b: &GlyphCache,
    font_id: FontId,
    size_px: u32,
    style: FontStyle,
    end: int,
)
    requires
        end <= 0x7f,
        forall|c: int|
            0x20 <= c < end ==> a.glyph(key_for(font_id, size_px, style, #[trigger] (c as char)))
                == b.glyph(key_for(font_id, size_px, style, c as char)),
    ensures
        ascii_cached(a, font_id, size_px, style, end) == ascii_cached(
            b,
            font_id,
            size_px,
            style,
            end,
        ),
        0 <= ascii_cached(a, font_id, size_px, style, end) <= max0(end - 0x20),
    decreases end,
{
    if end > 0x20 {
        lemma_ascii_cached_stable(a, b, font_id, size_px, style, end - 1);
        let c = (end - 1) as char;
    }
}

spec fn max0(v: int) -> int {
    if v < 0 {
        0
    } else {
        v
    }
}

impl GlyphCache {
    /// Cache the printable ASCII characters of a font, size and style, so that
    /// drawing them later needs no rendering. Returns how many have a glyph.
    pub fn preload_ascii(&mut self, font_id: FontId, size_px: u32, style: FontStyle) -> (r: Result<
        usize,
        GlyphError,
    >)
        requires
            old(self).wf(),
        ensures
            final(self).wf(),
            final(self).extends(old(self)),
            r is Err <==> !old(self).has_face(font_id, style),
            r matches Err(e) ==> e == GlyphError::NoFont && *final(self) == *old(self),
            r matches Ok(n) ==> n == ascii_cached(final(self), font_id, size_px, style, 0x7f),
            r is Ok ==> final(self).preloaded(font_id, size_px, style),
            forall|k: GlyphKey|
                !(k.font_id == font_id && k.size_px == size_px && k.style == style && 0x20
                    <= k.codepoint as int && k.codepoint as int <= 0x7e)
                    ==> #[trigger] final(self).glyph(k) == old(self).glyph(k),
    {
        if !self.has_font(font_id, style) {
            return Err(GlyphError::NoFont);
        }
        let mut n: usize = 0;
        let mut code: u8 = 0x20;
        while code <= 0x7e
            invariant
                0x20 <= code <= 0x7f,
                self.wf(),
                self.extends(old(self)),
                n == ascii_cached(self, font_id, size_px, style, code as int),
                n <= code - 0x20,
                self.has_face(font_id, style),
                forall|c: char|
                    0x20 <= c as int && (c as int) < code ==> #[trigger] self.settled(
                        key_for(font_id, size_px, style, c),
                    ),
                forall|k: GlyphKey|
                    !(k.font_id == font_id && k.size_px == size_px && k.style == style && 0x20
                        <= k.codepoint as int && k.codepoint as int <= 0x7e)
                        ==> #[trigger] self.glyph(k) == old(self).glyph(k),
            decreases 0x7f - code,
        {
            let ghost before = *self;
            let ch: char = code as char;
            let found: bool = self.get_or_rasterize(
                GlyphKey { font_id, size_px, style, codepoint: ch },
            ).is_some();
            proof {
                lemma_ascii_cached_stable(&before, self, font_id, size_px, style, code as int);
                lemma_extends_trans(old(self), &before, self);
                assert(ch == (code as int) as char);
                assert(self.extends(&before));
                lemma_settled(&before, self, key_for(font_id, size_px, style, ch));
                assert forall|c: char|
                    0x20 <= c as int && (c as int) < code + 1 implies #[trigger] self.settled(
                    key_for(font_id, size_px, style, c),
                ) by {
                    if (c as int) < code {
                        assert(before.settled(key_for(font_id, size_px, style, c)));
                        lemma_settled_stays(
                            &before,
                            self,
                            key_for(font_id, size_px, style, c),
                        );
                    } else {
                        assert(c == ch);
                    }
                }
            }
            if found {
                n = n + 1;
            }
            code = code + 1;
        }
        Ok(n)
    }

    /// Hand over the characters found missing since the last call. Each
    /// character is handed over once in the life of the cache.
    pub fn take_missing(&mut self) -> (chars: Vec<char>)
        requires
            old(self).wf(),
        ensures
            final(self).wf(),
            final(self).same_faces(old(self)),
            final(self).same_glyphs(old(self)),
            chars@ == old(self).pending_missing(),
            final(self).pending_missing() == Seq::<char>::empty(),
            final(self).seen_missing() == old(self).seen_missing(),
    {
        let ghost before = *self;
        let mut chars: Vec<char> = Vec::new();
        chars.append(&mut self.missing);
        proof {
            lemma_slots_agree(&before, self);
            assert forall|k: GlyphKey| #[trigger] self.keys@.contains(k) implies self.holds(k) by {
                assert(before.holds(k));
            }
        }
        chars
    }
}

// Text layout.

/// One laid-out glyph: its cache key, and where its top-left corner goes.
#[derive(Debug, Clone, Copy, PartialEq, Eq, Structural)]
pub struct Placement {
    pub key: GlyphKey,
    pub x: i32,
    pub y: i32,
}

/// A coordinate held inside the signed 32-bit range.
pub open spec fn saturated(v: int) -> i32 {
    if v < i32::MIN {
        i32::MIN
    } else if v > i32::MAX {
        i32::MAX
    } else {
        v as i32
    }
}

fn saturate(v: i64) -> (r: i32)
    ensures
        r == saturated(v as int),
{
    if v < -0x8000_0000 {
        -0x8000_0000
    } else if v > 0x7fff_ffff {
        0x7fff_ffff
    } else {
        v as i32
    }
}

/// The pen after the first `n` glyphs. A character without a glyph does not
/// move it.
pub open spec fn pen_after(glyphs: Seq<Option<GlyphBitmap>>, start: i32, n: int) -> i32
    decreases n,
{
    if n <= 0 {
        start
    } else {
        match glyphs[n - 1] {
            Some(g) => saturated(pen_after(glyphs, start, n - 1) + g.advance_x),
            None => pen_after(glyphs, start, n - 1),
        }
    }
}

/// Where the first `n` glyphs of a line go: each with coverage at the pen,
/// shifted by its bearings.
pub open spec fn placed(
    keys: Seq<GlyphKey>,
    glyphs: Seq<Option<GlyphBitmap>>,
    x: i32,
    y: i32,
    n: int,
) -> Seq<Placement>
    decreases n,
{
    if n <= 0 {
        Seq::empty()
    } else {
        let before = placed(keys, glyphs, x, y, n - 1);
        match glyphs[n - 1] {
            Some(g) if !g.spec_is_empty() => before.push(
                Placement {
                    key: keys[n - 1],
                    x: saturated(pen_after(glyphs, x, n - 1) + g.bearing_x),
                    y: saturated(y - g.bearing_y),
                },
            ),
            _ => before,
        }
    }
}

/// The keys of a text.
pub open spec fn text_keys(
    text: Seq<char>,
    font_id: FontId,
    size_px: u32,
    style: FontStyle,
) -> Seq<GlyphKey> {
    Seq::new(text.len(), |i: int| key_for(font_id, size_px, style, text[i]))
}

/// `glyphs` is what looking up `keys` gave while the cache went from `before`
/// to `after`: what was cached already is found, what was found stays, and what a
/// registered font did not give, FreeType gave no image for.
pub open spec fn looked_up(
    before: &GlyphCache,
    after: &GlyphCache,
    keys: Seq<GlyphKey>,
    glyphs: Seq<Option<GlyphBitmap>>,
) -> bool {
    &&& glyphs.len() == keys.len()
    &&& forall|i: int|
        #![trigger glyphs[i]]
        0 <= i < glyphs.len() ==> {
            &&& glyphs[i] is Some ==> after.glyph(keys[i]) == glyphs[i]
            &&& before.glyph(keys[i]) is Some ==> glyphs[i] == before.glyph(keys[i])
            &&& glyphs[i] is None ==> (before.font_path(
                keys[i].font_id,
                keys[i].style,
            ) matches Some(path) ==> no_image(path, keys[i]))
        }
}

/// `placements` is a layout of the text, for some outcome of the look-ups.
pub open spec fn laid_out(
    before: &GlyphCache,
    after: &GlyphCache,
    keys: Seq<GlyphKey>,
    x: i32,
    y: i32,
    placements: Seq<Placement>,
) -> bool {
    exists|glyphs: Seq<Option<GlyphBitmap>>| #[trigger]
        looked_up(before, after, keys, glyphs) && placements == placed(
            keys,
            glyphs,
            x,
            y,
            keys.len() as int,
        )
}

/// Every glyph that a layout places was found for one of its keys.
pub proof fn lemma_placed_found(
    keys: Seq<GlyphKey>,
    glyphs: Seq<Option<GlyphBitmap>>,
    x: i32,
    y: i32,
    n: int,
)
    ensures
        forall|j: int|
            0 <= j < placed(keys, glyphs, x, y, n).len() ==> exists|m: int|
                0 <= m < n && (#[trigger] placed(keys, glyphs, x, y, n)[j]).key
                    == #[trigger] keys[m] && glyphs[m] is Some,
    decreases n,
{
    if n > 0 {
        lemma_placed_found(keys, glyphs, x, y, n - 1);
        let (p, q) = (placed(keys, glyphs, x, y, n), placed(keys, glyphs, x, y, n - 1));
        assert forall|j: int| 0 <= j < p.len() implies exists|m: int|
            0 <= m < n && (#[trigger] p[j]).key == #[trigger] keys[m] && glyphs[m] is Some by {
            if j < q.len() {
                assert(p[j] == q[j]);
                let m = choose|m: int|
                    0 <= m < n - 1 && q[j].key == #[trigger] keys[m] && glyphs[m] is Some;
                assert(p[j].key == keys[m]);
            } else {
                assert(p[j].key == keys[n - 1]);
            }
        }
    }
}

proof fn lemma_placed_prefix(
    keys: Seq<GlyphKey>,
    a: Seq<Option<GlyphBitmap>>,
    b: Seq<Option<GlyphBitmap>>,
    x: i32,
    y: i32,
    n: int,
)
    requires
        n <= a.len(),
        n <= b.len(),
        forall|i: int| 0 <= i < n ==> a[i] == b[i],
    ensures
        pen_after(a, x, n) == pen_after(b, x, n),
        placed(keys, a, x, y, n) == placed(keys, b, x, y, n),
    decreases n,
{
    if n > 0 {
        lemma_placed_prefix(keys, a, b, x, y, n - 1);
    }
}

/// A text whose characters are all cached has one layout: the cached glyphs
/// side by side.
pub proof fn law_cached_text_layout(
    before: &GlyphCache,
    after: &GlyphCache,
    keys: Seq<GlyphKey>,
    x: i32,
    y: i32,
    placements: Seq<Placement>,
)
    requires
        laid_out(before, after, keys, x, y, placements),
        forall|i: int| 0 <= i < keys.len() ==> before.glyph(#[trigger] keys[i]) is Some,
    ensures
        placements == placed(
            keys,
            Seq::new(keys.len(), |i: int| before.glyph(keys[i])),
            x,
            y,
            keys.len() as int,
        ),
{
    let glyphs = choose|glyphs: Seq<Option<GlyphBitmap>>| #[trigger]
        looked_up(before, after, keys, glyphs) && placements == placed(
            keys,
            glyphs,
            x,
            y,
            keys.len() as int,
        );
    assert(glyphs =~= Seq::new(keys.len(), |i: int| before.glyph(keys[i])));
}

/// What a layout places, read off the bitmaps.
proof fn lemma_placed_bitmaps(
    after: &GlyphCache,
    keys: Seq<GlyphKey>,
    glyphs: Seq<Option<GlyphBitmap>>,
    x: i32,
    y: i32,
    n: int,
    j: int,
)
    requires
        n <= keys.len() == glyphs.len(),
        forall|i: int| 0 <= i < n && #[trigger] glyphs[i] is Some ==> after.glyph(keys[i]) == glyphs[i],
        0 <= j < placed(keys, glyphs, x, y, n).len(),
    ensures
        ({
            let p = placed(keys, glyphs, x, y, n)[j];
            after.glyph(p.key) matches Some(g) && !g.spec_is_empty() && p.y == saturated(
                y - g.bearing_y,
            )
        }),
    decreases n,
{
    if n > 0 && j < placed(keys, glyphs, x, y, n - 1).len() {
        lemma_placed_bitmaps(after, keys, glyphs, x, y, n - 1, j);
    }
}

/// Every glyph of a line stands on its baseline: the top of its bitmap lies as
/// far above the baseline as the bitmap says. Only a position outside of the
/// coordinates' range is moved, to the end of the range that it passed. What is
/// placed has coverage.
pub proof fn law_glyphs_stand_on_baseline(
    before: &GlyphCache,
    after: &GlyphCache,
    keys: Seq<GlyphKey>,
    x: i32,
    baseline_y: i32,
    placements: Seq<Placement>,
    j: int,
)
    requires
        laid_out(before, after, keys, x, baseline_y, placements),
        0 <= j < placements.len(),
    ensures
        after.glyph(placements[j].key) matches Some(g) && g.width > 0 && g.height > 0
            && g.alpha@.len() > 0 && (i32::MIN <= baseline_y - g.bearing_y <= i32::MAX
            ==> placements[j].y + g.bearing_y == baseline_y) && (baseline_y - g.bearing_y > i32::MAX
            ==> placements[j].y == i32::MAX) && (baseline_y - g.bearing_y < i32::MIN
            ==> placements[j].y == i32::MIN),
{
    let glyphs = choose|glyphs: Seq<Option<GlyphBitmap>>| #[trigger]
        looked_up(before, after, keys, glyphs) && placements == placed(
            keys,
            glyphs,
            x,
            baseline_y,
            keys.len() as int,
        );
    lemma_placed_bitmaps(after, keys, glyphs, x, baseline_y, keys.len() as int, j);
}

/// The line after its first character, laid out on its own.
proof fn lemma_placed_rest(
    keys: Seq<GlyphKey>,
    glyphs: Seq<Option<GlyphBitmap>>,
    x: i32,
    y: i32,
    n: int,
)
    requires
        0 < n <= keys.len() == glyphs.len(),
    ensures
        ({
            let pen = pen_after(glyphs, x, 1);
            let rest = placed(keys.skip(1), glyphs.skip(1), pen, y, n - 1);
            &&& pen_after(glyphs, x, n) == pen_after(glyphs.skip(1), pen, n - 1)
            &&& placed(keys, glyphs, x, y, n) == placed(keys, glyphs, x, y, 1) + rest
        }),
    decreases n,
{
    let pen = pen_after(glyphs, x, 1);
    if n > 1 {
        lemma_placed_rest(keys, glyphs, x, y, n - 1);
        assert(glyphs.skip(1)[n - 2] == glyphs[n - 1]);
        assert(keys.skip(1)[n - 2] == keys[n - 1]);
    }
    assert(placed(keys, glyphs, x, y, n) =~= placed(keys, glyphs, x, y, 1) + placed(
        keys.skip(1),
        glyphs.skip(1),
        pen,
        y,
        n - 1,
    ));
}

/// A line is its first character, and then the rest of the line from where the
/// first character's advance left the pen. A character without coverage is not
/// placed and still moves the pen; one with coverage is placed at the pen, off by
/// its bearing.
pub proof fn law_line_goes_on_from_advance(
    before: &GlyphCache,
    after: &GlyphCache,
    keys: Seq<GlyphKey>,
    x: i32,
    y: i32,
    placements: Seq<Placement>,
)
    requires
        laid_out(before, after, keys, x, y, placements),
        keys.len() > 0,
    ensures
        before.glyph(keys[0]) matches Some(g) ==> i32::MIN <= x + g.advance_x <= i32::MAX ==> {
            let next = (x + g.advance_x) as i32;
            if g.width == 0 || g.height == 0 || g.alpha@.len() == 0 {
                laid_out(before, after, keys.skip(1), next, y, placements)
            } else {
                &&& placements.len() > 0
                &&& placements[0].key == keys[0]
                &&& i32::MIN <= x + g.bearing_x <= i32::MAX ==> placements[0].x == x + g.bearing_x
                &&& laid_out(before, after, keys.skip(1), next, y, placements.skip(1))
            }
        },
{
    let glyphs = choose|glyphs: Seq<Option<GlyphBitmap>>| #[trigger]
        looked_up(before, after, keys, glyphs) && placements == placed(
            keys,
            glyphs,
            x,
            y,
            keys.len() as int,
        );
    lemma_placed_rest(keys, glyphs, x, y, keys.len() as int);
    assert(glyphs[0] == glyphs[0]);
    let pen = pen_after(glyphs, x, 1);
    reveal_with_fuel(pen_after, 2);
    reveal_with_fuel(placed, 2);
    let rest = placed(keys.skip(1), glyphs.skip(1), pen, y, keys.len() - 1);
    assert(looked_up(before, after, keys.skip(1), glyphs.skip(1))) by {
        assert forall|i: int|
            #![trigger glyphs.skip(1)[i]]
            0 <= i < glyphs.len() - 1 implies glyphs.skip(1)[i] == glyphs[i + 1] && keys.skip(1)[i]
            == keys[i + 1] by {}
    }
    let first = placed(keys, glyphs, x, y, 1);
    assert(placements == first + rest);
    if first.len() == 0 {
        assert(placements =~= rest);
    } else {
        assert(placements.skip(1) =~= rest);
    }
}

/// A line without characters places nothing.
pub proof fn law_empty_line(
    before: &GlyphCache,
    after: &GlyphCache,
    x: i32,
    y: i32,
    placements: Seq<Placement>,
)
    requires
        laid_out(before, after, Seq::empty(), x, y, placements),
    ensures
        placements.len() == 0,
{
}

/// Each character of a text is looked up in the face, style and size asked for.
pub proof fn law_text_looked_up_by_character(
    text: Seq<char>,
    font_id: FontId,
    size_px: u32,
    style: FontStyle,
)
    ensures
        text_keys(text, font_id, size_px, style).len() == text.len(),
        forall|i: int|
            #![trigger text[i]]
            0 <= i < text.len() ==> text_keys(text, font_id, size_px, style)[i] == (GlyphKey {
                font_id,
                size_px,
                style,
                codepoint: text[i],
            }),
{
}

/// A layout stays one while the cache grows at either end.
pub proof fn lemma_laid_out_extends(
    first: &GlyphCache,
    before: &GlyphCache,
    after: &GlyphCache,
    last: &GlyphCache,
    keys: Seq<GlyphKey>,
    x: i32,
    y: i32,
    placements: Seq<Placement>,
)
    requires
        laid_out(before, after, keys, x, y, placements),
        before.extends(first),
        last.extends(after),
    ensures
        laid_out(first, last, keys, x, y, placements),
{
    let glyphs = choose|glyphs: Seq<Option<GlyphBitmap>>| #[trigger]
        looked_up(before, after, keys, glyphs) && placements == placed(
            keys,
            glyphs,
            x,
            y,
            keys.len() as int,
        );
    assert(looked_up(first, last, keys, glyphs));
}

/// Lay a text out from left to right with its baseline at
/// `(baseline_x, baseline_y)`. Glyphs without coverage are left out but move
/// the pen. `None` where no face is registered for the font and style.
pub fn layout_left_to_right(
    cache: &mut GlyphCache,
    text: &str,
    font_id: FontId,
    size_px: u32,
    style: FontStyle,
    baseline_x: i32,
    baseline_y: i32,
) -> (r: Option<Vec<Placement>>)
    requires
        old(cache).wf(),
    ensures
        final(cache).wf(),
        final(cache).extends(old(cache)),
        forall|k: GlyphKey|
            !text_keys(text@, font_id, size_px, style).contains(k) ==> #[trigger] final(cache).glyph(k)
                == old(cache).glyph(k),
        r is None <==> !old(cache).has_face(font_id, style),
        r is None ==> *final(cache) == *old(cache),
        r matches Some(p) ==> laid_out(
            old(cache),
            final(cache),
            text_keys(text@, font_id, size_px, style),
            baseline_x,
            baseline_y,
            p@,
        ) && forall|i: int|
            0 <= i < p@.len() ==> final(cache).glyph((#[trigger] p@[i]).key) is Some,
{
    if !cache.has_font(font_id, style) {
        return None;
    }
    let ghost keys = text_keys(text@, font_id, size_px, style);
    let ghost mut glyphs: Seq<Option<GlyphBitmap>> = Seq::empty();
    let mut placements: Vec<Placement> = Vec::new();
    let mut pen: i32 = baseline_x;
    let n: usize = text.unicode_len();
    let mut i: usize = 0;
    while i < n
        invariant
            i <= n == text@.len(),
            keys == text_keys(text@, font_id, size_px, style),
            old(cache).has_face(font_id, style),
            cache.wf(),
            cache.extends(old(cache)),
            forall|k: GlyphKey|
                !keys.contains(k) ==> #[trigger] cache.glyph(k) == old(cache).glyph(k),
            glyphs.len() == i,
            looked_up(old(cache), cache, keys.take(i as int), glyphs),
            pen == pen_after(glyphs, baseline_x, i as int),
            placements@ == placed(keys, glyphs, baseline_x, baseline_y, i as int),
            forall|j: int|
                0 <= j < placements@.len() ==> cache.glyph((#[trigger] placements@[j]).key) is Some,
        decreases n - i,
    {
        let key = GlyphKey { font_id, size_px, style, codepoint: text.get_char(i) };
        let ghost before = *cache;
        let ghost glyphs0 = glyphs;
        let found: Option<(i32, i32, i32, bool)> = match cache.get_or_rasterize(key) {
            Some(g) => Some((g.advance_x, g.bearing_x, g.bearing_y, g.is_empty())),
            None => None,
        };
        proof {
            assert(keys[i as int] == key);
            assert(keys.contains(key));
            glyphs = glyphs0.push(cache.glyph(key));
            lemma_placed_prefix(keys, glyphs0, glyphs, baseline_x, baseline_y, i as int);
            lemma_extends_trans(old(cache), &before, cache);
            assert(before.has_face(font_id, style) == old(cache).has_face(font_id, style));
            assert(cache.has_face(font_id, style) == before.has_face(font_id, style));
            lemma_settled(&before, cache, key);
            assert(looked_up(old(cache), cache, keys.take(i + 1), glyphs)) by {
                assert forall|j: int|
                    #![trigger glyphs[j]]
                    0 <= j < glyphs.len() implies {
                    &&& glyphs[j] is Some ==> cache.glyph(keys.take(i + 1)[j]) == glyphs[j]
                    &&& old(cache).glyph(keys.take(i + 1)[j]) is Some ==> glyphs[j]
                        == old(cache).glyph(keys.take(i + 1)[j])
                    &&& glyphs[j] is None ==> (old(cache).font_path(
                        keys.take(i + 1)[j].font_id,
                        keys.take(i + 1)[j].style,
                    ) matches Some(path) ==> no_image(path, keys.take(i + 1)[j]))
                } by {
                    if j < i {
                        assert(glyphs[j] == glyphs0[j]);
                        assert(keys.take(i as int)[j] == keys.take(i + 1)[j]);
                    }
                }
            }
        }
        match found {
            Some((advance, bearing_x, bearing_y, empty)) => {
                if !empty {
                    placements.push(
                        Placement {
                            key,
                            x: saturate(pen as i64 + bearing_x as i64),
                            y: saturate(baseline_y as i64 - bearing_y as i64),
                        },
                    );
                }
                pen = saturate(pen as i64 + advance as i64);
            },
            None => {},
        }
        i = i + 1;
    }
    assert(keys.take(n as int) =~= keys);
    assert(looked_up(old(cache), cache, keys, glyphs));
    Some(placements)
}

} // verus!
