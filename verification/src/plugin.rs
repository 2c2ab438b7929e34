//! The pipeline element that paints the scoreboard into each frame.
use crate::clock;
use crate::commands;
use crate::commands::{dispatch_commands, DispatchStats, Draw, OverlayCommand};
use crate::floats;
use crate::glyphs;
use crate::glyphs::{FontId, FontStyle, GlyphCache, GlyphError, GlyphKey};
use crate::layout::scoreboard;
use crate::layout::scoreboard::{
    scoreboard_commands, LayoutParams, LayoutSizes, PenaltyTile, ScoreboardState,
};
use crate::renderer::color::Rgba;
use crate::renderer::frame;
use crate::renderer::frame::{Nv12FrameMut, Picture};
use crate::session;
use crate::text;
use vstd::prelude::*;

verus! {

// Painting a buffer.

/// Where the planes of a frame lie in a buffer.
#[derive(Debug, Clone, Copy, PartialEq, Eq)]
pub struct PlaneLayout {
    pub y_offset: usize,
    pub uv_offset: usize,
    pub y_stride: usize,
    pub uv_stride: usize,
    pub width: u32,
    pub height: u32,
}

impl PlaneLayout {
    pub open spec fn y_size(self) -> int {
        self.height * self.y_stride
    }

    pub open spec fn uv_size(self) -> int {
        (self.height as int / 2) * self.uv_stride
    }

    /// The luma plane lies before the chroma plane, and the buffer holds both.
    pub open spec fn fits(self, len: int) -> bool {
        &&& self.y_offset < self.uv_offset
        &&& self.y_offset + self.y_size() <= self.uv_offset
        &&& self.uv_offset + self.uv_size() <= len
    }

    /// The frame that a buffer holds.
    pub open spec fn picture(self, data: Seq<u8>) -> Picture {
        Picture {
            y: data.subrange(self.y_offset as int, self.y_offset + self.y_size()),
            uv: data.subrange(self.uv_offset as int, self.uv_offset + self.uv_size()),
            y_stride: self.y_stride as int,
            uv_stride: self.uv_stride as int,
            width: self.width as int,
            height: self.height as int,
        }
    }

    /// A byte of neither plane.
    pub open spec fn outside(self, i: int) -> bool {
        &&& !(self.y_offset <= i < self.y_offset + self.y_size())
        &&& !(self.uv_offset <= i < self.uv_offset + self.uv_size())
    }
}

fn plane_size(rows: u32, stride: usize) -> (n: Option<usize>)
    ensures
        match n {
            Some(s) => s == rows * stride,
            None => rows * stride > usize::MAX,
        },
{
    (rows as usize).checked_mul(stride)
}

/// The layout that is asked for on a frame.
pub open spec fn params_for(p: PlaneLayout, sizes: LayoutSizes) -> LayoutParams {
    LayoutParams {
        frame_width: p.width,
        frame_height: p.height,
        regular_font: FontId(0),
        bold_font: FontId(1),
        sizes,
    }
}

/// A scoreboard can be painted into a buffer.
pub open spec fn paintable(
    p: PlaneLayout,
    len: int,
    state: ScoreboardState,
    sizes: LayoutSizes,
) -> bool {
    &&& p.fits(len)
    &&& frame::valid_layout(
        p.y_size(),
        p.uv_size(),
        p.y_stride as int,
        p.uv_stride as int,
        p.width as int,
        p.height as int,
    )
    &&& state.wf()
    &&& p.width <= i32::MAX
    &&& p.height <= i32::MAX
    &&& scoreboard::overlay_drawn(&state, &params_for(p, sizes)).len() <= u32::MAX
}

/// `after` is `before` with the scoreboard painted over it: commands that draw
/// `drawing` were dispatched.
pub open spec fn scoreboard_painted(
    before: Picture,
    after: Picture,
    c0: GlyphCache,
    c1: GlyphCache,
    drawing: Seq<Draw>,
    stats: DispatchStats,
) -> bool {
    exists|cmds: Seq<OverlayCommand>| #[trigger]
        commands::dispatched(before, after, &c0, &c1, cmds, stats) && commands::drawn(cmds)
            == drawing
}

/// Paint a scoreboard into a frame. Nothing is painted if it takes more
/// commands than can be counted.
fn paint_frame(
    frame: &mut Nv12FrameMut<'_>,
    cache: &mut GlyphCache,
    state: &ScoreboardState,
    params: &LayoutParams,
) -> (r: Option<DispatchStats>)
    requires
        old(frame).wf(),
        old(cache).wf(),
        state.wf(),
        params.wf(),
    ensures
        final(frame).wf(),
        // The frame still borrows the same planes.
        final(final(frame).y_plane)@ == final(old(frame).y_plane)@,
        final(final(frame).uv_plane)@ == final(old(frame).uv_plane)@,
        final(cache).wf(),
        final(cache).extends(old(cache)),
        match r {
            Some(stats) => scoreboard::overlay_drawn(state, params).len() <= u32::MAX
                && scoreboard_painted(
                old(frame)@,
                final(frame)@,
                *old(cache),
                *final(cache),
                scoreboard::overlay_drawn(state, params),
                stats,
            ),
            None => scoreboard::overlay_drawn(state, params).len() > u32::MAX && final(frame)@
                == old(frame)@,
        },
{
    let cmds: Vec<OverlayCommand> = scoreboard_commands(state, params);
    assert(commands::drawn(cmds@).len() == cmds@.len());
    if cmds.len() > u32::MAX as usize {
        return None;
    }
    let stats: DispatchStats = dispatch_commands(frame, cache, cmds.as_slice());
    Some(stats)
}

/// Paint a scoreboard into the planes of a frame.
fn paint_planes(
    y_plane: &mut [u8],
    uv_plane: &mut [u8],
    p: PlaneLayout,
    cache: &mut GlyphCache,
    state: &ScoreboardState,
    sizes: LayoutSizes,
) -> (r: Option<DispatchStats>)
    requires
        old(cache).wf(),
        state.wf(),
        p.width <= i32::MAX,
        p.height <= i32::MAX,
        old(y_plane)@.len() == p.y_size(),
        old(uv_plane)@.len() == p.uv_size(),
    ensures
        final(y_plane)@.len() == old(y_plane)@.len(),
        final(uv_plane)@.len() == old(uv_plane)@.len(),
        final(cache).wf(),
        final(cache).extends(old(cache)),
        ({
            let drawing = scoreboard::overlay_drawn(state, &params_for(p, sizes));
            let ok = frame::valid_layout(
                p.y_size(),
                p.uv_size(),
                p.y_stride as int,
                p.uv_stride as int,
                p.width as int,
                p.height as int,
            ) && drawing.len() <= u32::MAX;
            match r {
                Some(stats) => ok && scoreboard_painted(
                    plane_picture(old(y_plane)@, old(uv_plane)@, p),
                    plane_picture(final(y_plane)@, final(uv_plane)@, p),
                    *old(cache),
                    *final(cache),
                    drawing,
                    stats,
                ),
                None => !ok && final(y_plane)@ == old(y_plane)@ && final(uv_plane)@
                    == old(uv_plane)@,
            }
        }),
{
    let params: LayoutParams = LayoutParams {
        frame_width: p.width,
        frame_height: p.height,
        regular_font: FontId(0),
        bold_font: FontId(1),
        sizes,
    };
    match Nv12FrameMut::new(y_plane, uv_plane, p.y_stride, p.uv_stride, p.width, p.height) {
        Some(mut frame) => {
            let r: Option<DispatchStats> = paint_frame(&mut frame, cache, state, &params);
            proof {
                if let Some(stats) = r {
                    lemma_keeps_frame(
                        plane_picture(old(y_plane)@, old(uv_plane)@, p),
                        frame@,
                        *old(cache),
                        *cache,
                        scoreboard::overlay_drawn(state, &params),
                        stats,
                    );
                }
            }
            r
        },
        None => None,
    }
}

/// A frame by its planes.
pub open spec fn plane_picture(y: Seq<u8>, uv: Seq<u8>, p: PlaneLayout) -> Picture {
    Picture {
        y,
        uv,
        y_stride: p.y_stride as int,
        uv_stride: p.uv_stride as int,
        width: p.width as int,
        height: p.height as int,
    }
}

proof fn lemma_keeps_frame(
    before: Picture,
    after: Picture,
    c0: GlyphCache,
    c1: GlyphCache,
    drawing: Seq<Draw>,
    stats: DispatchStats,
)
    requires
        scoreboard_painted(before, after, c0, c1, drawing, stats),
    ensures
        commands::same_frame(after, before),
{
    let cmds = choose|cmds: Seq<OverlayCommand>| #[trigger]
        commands::dispatched(before, after, &c0, &c1, cmds, stats) && commands::drawn(cmds)
            == drawing;
    commands::law_painting_keeps_frame(before, after, &c0, &c1, cmds, stats);
}

/// A buffer put together from what lies round the planes and the planes.
proof fn lemma_buffer(before: Seq<u8>, after: Seq<u8>, y: Seq<u8>, uv: Seq<u8>, p: PlaneLayout)
    requires
        p.y_size() >= 0,
        p.uv_size() >= 0,
        p.fits(before.len() as int),
        y.len() == p.y_size(),
        uv.len() == p.uv_size(),
        after == before.subrange(0, p.y_offset as int) + (y + before.subrange(
            p.y_offset + p.y_size(),
            p.uv_offset as int,
        )) + (uv + before.subrange(p.uv_offset + p.uv_size(), before.len() as int)),
    ensures
        after.len() == before.len(),
        p.picture(after).y == y,
        p.picture(after).uv == uv,
        forall|i: int| 0 <= i < before.len() && p.outside(i) ==> #[trigger] after[i] == before[i],
{
    assert(p.picture(after).y =~= y);
    assert(p.picture(after).uv =~= uv);
}

/// Paint a scoreboard into a buffer that holds both planes.
fn paint_fitting(
    data: &mut [u8],
    p: PlaneLayout,
    y_size: usize,
    uv_size: usize,
    cache: &mut GlyphCache,
    state: &ScoreboardState,
    sizes: LayoutSizes,
) -> (r: Option<DispatchStats>)
    requires
        old(cache).wf(),
        state.wf(),
        p.width <= i32::MAX,
        p.height <= i32::MAX,
        y_size == p.y_size(),
        uv_size == p.uv_size(),
        p.fits(old(data)@.len() as int),
    ensures
        final(data)@.len() == old(data)@.len(),
        final(cache).wf(),
        final(cache).extends(old(cache)),
        match r {
            Some(stats) => {
                &&& paintable(p, old(data)@.len() as int, *state, sizes)
                &&& scoreboard_painted(
                    p.picture(old(data)@),
                    p.picture(final(data)@),
                    *old(cache),
                    *final(cache),
                    scoreboard::overlay_drawn(state, &params_for(p, sizes)),
                    stats,
                )
                &&& forall|i: int|
                    0 <= i < old(data)@.len() && p.outside(i) ==> #[trigger] final(data)@[i]
                        == old(data)@[i]
            },
            None => !paintable(p, old(data)@.len() as int, *state, sizes) && final(data)@
                == old(data)@,
        },
{
    let ghost before = data@;
    let ghost y_before = p.picture(before).y;
    let ghost uv_before = p.picture(before).uv;
    let (head, tail): (&mut [u8], &mut [u8]) = data.split_at_mut(p.uv_offset);
    let (front, rest): (&mut [u8], &mut [u8]) = head.split_at_mut(p.y_offset);
    let (y_plane, gap): (&mut [u8], &mut [u8]) = rest.split_at_mut(y_size);
    let (uv_plane, end): (&mut [u8], &mut [u8]) = tail.split_at_mut(uv_size);
    assert(y_plane@ =~= y_before);
    assert(uv_plane@ =~= uv_before);
    assert(front@ =~= before.subrange(0, p.y_offset as int));
    assert(gap@ =~= before.subrange(p.y_offset + p.y_size(), p.uv_offset as int));
    assert(end@ =~= before.subrange(p.uv_offset + p.uv_size(), before.len() as int));
    let r: Option<DispatchStats> = paint_planes(y_plane, uv_plane, p, cache, state, sizes);
    let ghost y_after = y_plane@;
    let ghost uv_after = uv_plane@;
    proof {
        lemma_buffer(before, data@, y_after, uv_after, p);
        assert(p.picture(before) == plane_picture(y_before, uv_before, p));
        assert(p.picture(data@) == plane_picture(y_after, uv_after, p));
        if r is None {
            assert(data@ =~= before);
        }
    }
    r
}

/// Paint a scoreboard into the frame that a buffer holds. Gives nothing, and
/// leaves the buffer alone, where that cannot be done.
pub fn paint_buffer(
    data: &mut [u8],
    p: PlaneLayout,
    cache: &mut GlyphCache,
    state: &ScoreboardState,
    sizes: LayoutSizes,
) -> (r: Option<DispatchStats>)
    requires
        old(cache).wf(),
    ensures
        final(data)@.len() == old(data)@.len(),
        final(cache).wf(),
        final(cache).extends(old(cache)),
        match r {
            Some(stats) => {
                &&& paintable(p, old(data)@.len() as int, *state, sizes)
                &&& scoreboard_painted(
                    p.picture(old(data)@),
                    p.picture(final(data)@),
                    *old(cache),
                    *final(cache),
                    scoreboard::overlay_drawn(state, &params_for(p, sizes)),
                    stats,
                )
                &&& forall|i: int|
                    0 <= i < old(data)@.len() && p.outside(i) ==> #[trigger] final(data)@[i]
                        == old(data)@[i]
            },
            None => !paintable(p, old(data)@.len() as int, *state, sizes) && final(data)@
                == old(data)@,
        },
{
    let len: usize = data.len();
    if !state.is_drawable() || p.width > i32::MAX as u32 || p.height > i32::MAX as u32 {
        return None;
    }
    let y_size: usize = match plane_size(p.height, p.y_stride) {
        Some(n) => n,
        None => {
            return None;
        },
    };
    let uv_size: usize = match plane_size(p.height / 2, p.uv_stride) {
        Some(n) => n,
        None => {
            return None;
        },
    };
    assert(0 <= p.y_size() && 0 <= p.uv_size()) by (nonlinear_arith)
        requires
            p.y_size() == p.height * p.y_stride,
            p.uv_size() == (p.height as int / 2) * p.uv_stride,
            p.height >= 0,
            p.y_stride >= 0,
            p.uv_stride >= 0,
    ;
    if p.y_offset >= p.uv_offset || p.uv_offset > len || uv_size > len - p.uv_offset || y_size
        > p.uv_offset - p.y_offset {
        return None;
    }
    paint_fitting(data, p, y_size, uv_size, cache, state, sizes)
}

// What the element is told.

/// The element's switches.
#[derive(Debug, Clone, PartialEq, Eq)]
pub struct OverlaySettings {
    /// Off: frames pass through unchanged.
    pub enabled: bool,
    /// On: paint a built-in scoreboard in place of the real one.
    pub show_test_overlay: bool,
    /// Font files, found by themselves if absent.
    pub font_regular_path: Option<String>,
    pub font_bold_path: Option<String>,
}

impl Default for OverlaySettings {
    fn default() -> (s: OverlaySettings)
        ensures
            s.enabled,
            !s.show_test_overlay,
            s.font_regular_path is None,
            s.font_bold_path is None,
    {
        OverlaySettings {
            enabled: true,
            show_test_overlay: false,
            font_regular_path: None,
            font_bold_path: None,
        }
    }
}

/// A new scoreboard, as it arrives.
#[derive(Debug, Clone)]
pub enum StateInput {
    /// An empty text.
    Clear,
    Parsed(ScoreboardState),
    /// A text that does not hold a scoreboard.
    Malformed,
}

/// The scoreboard that was last handed in.
#[derive(Debug, Clone)]
pub struct ExternalState {
    pub cached: Option<ScoreboardState>,
    pub parse_count: u64,
    pub parse_err_count: u64,
}

impl Default for ExternalState {
    fn default() -> (s: ExternalState)
        ensures
            s.cached is None,
            s.parse_count == 0,
            s.parse_err_count == 0,
    {
        ExternalState { cached: None, parse_count: 0, parse_err_count: 0 }
    }
}

/// The next count, which starts again after the last one.
pub open spec fn next_count(n: u64) -> u64 {
    if n == u64::MAX {
        0
    } else {
        (n + 1) as u64
    }
}

impl ExternalState {
    /// Take in a scoreboard. A malformed one leaves the last one in place. True
    /// if a warning is due: at the first malformed one, and at every hundredth.
    pub fn accept(&mut self, input: StateInput) -> (warn: bool)
        ensures
            match input {
                StateInput::Clear => !warn && *final(self) == (ExternalState {
                    cached: None,
                    ..*old(self)
                }),
                StateInput::Parsed(s) => !warn && *final(self) == (ExternalState {
                    cached: Some(s),
                    parse_count: next_count(old(self).parse_count),
                    ..*old(self)
                }),
                StateInput::Malformed => {
                    let n = next_count(old(self).parse_err_count);
                    &&& *final(self) == (ExternalState { parse_err_count: n, ..*old(self) })
                    &&& warn == (n == 1 || n % 100 == 0)
                },
            },
    {
        match input {
            StateInput::Clear => {
                self.cached = None;
                false
            },
            StateInput::Parsed(s) => {
                self.cached = Some(s);
                self.parse_count = self.parse_count.wrapping_add(1);
                false
            },
            StateInput::Malformed => {
                self.parse_err_count = self.parse_err_count.wrapping_add(1);
                self.parse_err_count == 1 || self.parse_err_count % 100 == 0
            },
        }
    }
}

/// Sizes that were handed in as text, once it was read.
#[derive(Debug, Clone, Copy)]
pub enum SizesInput {
    /// An empty text.
    Clear,
    Parsed(LayoutSizes),
    /// A text that does not hold sizes.
    Malformed,
}

// Fonts.

/// Where a face is looked for, in order.
pub open spec fn font_candidate(bold: bool, i: int) -> Seq<char> {
    if bold {
        if i == 0 {
            "/usr/share/fonts/truetype/dejavu/DejaVuSans-Bold.ttf"@
        } else if i == 1 {
            "/usr/share/fonts/TTF/DejaVuSans-Bold.ttf"@
        } else if i == 2 {
            "/usr/share/fonts/dejavu/DejaVuSans-Bold.ttf"@
        } else {
            "/usr/share/fonts/truetype/liberation/LiberationSans-Bold.ttf"@
        }
    } else {
        if i == 0 {
            "/usr/share/fonts/truetype/dejavu/DejaVuSans.ttf"@
        } else if i == 1 {
            "/usr/share/fonts/TTF/DejaVuSans.ttf"@
        } else if i == 2 {
            "/usr/share/fonts/dejavu/DejaVuSans.ttf"@
        } else {
            "/usr/share/fonts/truetype/liberation/LiberationSans-Regular.ttf"@
        }
    }
}

/// How many places there are.
pub const FONT_CANDIDATES: usize = 4;

/// A place where a face is looked for.
pub fn probe_path(bold: bool, i: usize) -> (s: &'static str)
    requires
        i < FONT_CANDIDATES,
    ensures
        s@ == font_candidate(bold, i as int),
{
    if bold {
        if i == 0 {
            "/usr/share/fonts/truetype/dejavu/DejaVuSans-Bold.ttf"
        } else if i == 1 {
            "/usr/share/fonts/TTF/DejaVuSans-Bold.ttf"
        } else if i == 2 {
            "/usr/share/fonts/dejavu/DejaVuSans-Bold.ttf"
        } else {
            "/usr/share/fonts/truetype/liberation/LiberationSans-Bold.ttf"
        }
    } else {
        if i == 0 {
            "/usr/share/fonts/truetype/dejavu/DejaVuSans.ttf"
        } else if i == 1 {
            "/usr/share/fonts/TTF/DejaVuSans.ttf"
        } else if i == 2 {
            "/usr/share/fonts/dejavu/DejaVuSans.ttf"
        } else {
            "/usr/share/fonts/truetype/liberation/LiberationSans-Regular.ttf"
        }
    }
}

/// The font file that is used: the configured one, or the first place where
/// there is one. `present` says of each place whether there is.
pub fn choose_font(configured: &Option<String>, bold: bool, present: &Vec<bool>) -> (r: Option<
    String,
>)
    requires
        present@.len() == FONT_CANDIDATES,
    ensures
        match *configured {
            Some(path) => r matches Some(p) && p@ == path@,
            None => match r {
                Some(p) => exists|i: int|
                    #![trigger present@[i]]
                    0 <= i < FONT_CANDIDATES && present@[i] && p@ == font_candidate(bold, i)
                        && forall|k: int| 0 <= k < i ==> !present@[k],
                None => forall|k: int| 0 <= k < FONT_CANDIDATES ==> !present@[k],
            },
        },
{
    match configured {
        Some(path) => Some(path.clone()),
        None => {
            let mut i: usize = 0;
            while i < FONT_CANDIDATES
                invariant
                    *configured is None,
                    i <= FONT_CANDIDATES,
                    present@.len() == FONT_CANDIDATES,
                    forall|k: int| 0 <= k < i ==> !present@[k],
                decreases FONT_CANDIDATES - i,
            {
                if present[i] {
                    let p: String = probe_path(bold, i).to_owned();
                    assert(present@[i as int]);
                    return Some(p);
                }
                i = i + 1;
            }
            None
        },
    }
}

/// The size in pixels of a text that is `size` pixels high on a frame of the
/// reference width, at least one.
pub open spec fn preload_px(size: int, width: int) -> int {
    let px = floats::scaled_size(1000 * size, width);
    if px < 1 {
        1
    } else if px > u32::MAX {
        u32::MAX as int
    } else {
        px
    }
}

fn preload_size(size: u32, width: u32) -> (px: u32)
    requires
        size <= 32,
    ensures
        px == preload_px(size as int, width as int),
{
    let px: u64 = floats::scale_size(1000 * size, width);
    if px < 1 {
        1
    } else if px > 0xffff_ffff {
        0xffff_ffff
    } else {
        px as u32
    }
}

/// The sizes to render ahead for a frame width, in rising order.
pub open spec fn are_preload_sizes(sizes: Seq<u32>, width: int) -> bool {
    &&& forall|i: int, j: int| 0 <= i < j < sizes.len() ==> sizes[i] < sizes[j]
    &&& forall|px: u32| #[trigger]
        sizes.contains(px) <==> is_preload_size(px, width)
}

/// A size to render ahead for a frame width.
pub open spec fn is_preload_size(px: u32, width: int) -> bool {
    px == preload_px(18, width) || px == preload_px(22, width) || px == preload_px(32, width)
}

/// The two faces of the element, as far as they are loaded, hold the printable
/// ASCII characters of a size, but for those that FreeType gave no image for.
pub open spec fn faces_preloaded(cache: &GlyphCache, px: u32) -> bool {
    &&& cache.has_face(FontId(0), FontStyle::Regular) ==> cache.preloaded(
        FontId(0),
        px,
        FontStyle::Regular,
    )
    &&& cache.has_face(FontId(1), FontStyle::Bold) ==> cache.preloaded(
        FontId(1),
        px,
        FontStyle::Bold,
    )
}

proof fn lemma_faces_preloaded_stay(before: &GlyphCache, after: &GlyphCache, px: u32)
    requires
        faces_preloaded(before, px),
        after.extends(before),
    ensures
        faces_preloaded(after, px),
{
    assert(after.has_face(FontId(0), FontStyle::Regular) == before.has_face(
        FontId(0),
        FontStyle::Regular,
    ));
    assert(after.has_face(FontId(1), FontStyle::Bold) == before.has_face(
        FontId(1),
        FontStyle::Bold,
    ));
    if after.has_face(FontId(0), FontStyle::Regular) {
        glyphs::lemma_preloaded_stays(before, after, FontId(0), px, FontStyle::Regular);
    }
    if after.has_face(FontId(1), FontStyle::Bold) {
        glyphs::lemma_preloaded_stays(before, after, FontId(1), px, FontStyle::Bold);
    }
}

/// Whether a face was loaded from the file given for it, if any: then the file is
/// registered for it, and otherwise no file is, and FreeType did not open the one
/// given.
pub open spec fn face_loaded(
    cache: &GlyphCache,
    font_id: FontId,
    style: FontStyle,
    file: Option<&str>,
    loaded: bool,
) -> bool {
    &&& cache.has_face(font_id, style) == loaded
    &&& match file {
        Some(path) => if loaded {
            cache.font_path(font_id, style) == Some(path@)
        } else {
            glyphs::unopened(path@)
        },
        None => !loaded,
    }
}

fn in_order(a: u32, b: u32) -> (r: (u32, u32))
    ensures
        r == (if a <= b {
            (a, b)
        } else {
            (b, a)
        }),
{
    if a <= b {
        (a, b)
    } else {
        (b, a)
    }
}

/// The sizes to render ahead for a frame width.
pub fn preload_sizes(width: u32) -> (sizes: Vec<u32>)
    ensures
        are_preload_sizes(sizes@, width as int),
{
    let (x, y): (u32, u32) = in_order(preload_size(18, width), preload_size(22, width));
    let (z, c): (u32, u32) = in_order(y, preload_size(32, width));
    let (a, b): (u32, u32) = in_order(x, z);
    let mut sizes: Vec<u32> = Vec::new();
    sizes.push(a);
    if b != a {
        sizes.push(b);
    }
    if c != b {
        sizes.push(c);
    }
    proof {
        assert(a <= b <= c);
        assert(sizes@[0] == a);
        if b != a {
            assert(sizes@[1] == b);
        }
        if c != b {
            assert(sizes@[sizes@.len() - 1] == c);
        }
        assert forall|px: u32| #[trigger] sizes@.contains(px) <==> px == a || px == b || px == c by {
            if px == a {
                assert(sizes@.contains(sizes@[0]));
            }
            if px == b && b != a {
                assert(sizes@.contains(sizes@[1]));
            }
            if px == c && c != b {
                assert(sizes@.contains(sizes@[sizes@.len() - 1]));
            }
        }
    }
    sizes
}

// How long painting takes.

/// What painting has cost so far.
#[derive(Debug, Clone, Copy, PartialEq, Eq, Structural)]
pub struct RenderStats {
    pub frame_count: u64,
    pub total_ns: u128,
    pub max_ns: u128,
}

/// The average cost of a frame, in microseconds.
pub open spec fn average_us(s: RenderStats) -> int {
    if s.frame_count == 0 {
        0
    } else {
        (s.total_ns as int / 1000) / s.frame_count as int
    }
}

impl RenderStats {
    pub fn average(&self) -> (us: u128)
        ensures
            us == average_us(*self),
    {
        if self.frame_count == 0 {
            0
        } else {
            (self.total_ns / 1000) / (self.frame_count as u128)
        }
    }

    /// Count a frame. True if a report is due, at every three hundredth.
    pub fn note(&mut self, elapsed_ns: u128) -> (report: bool)
        requires
            old(self).frame_count < u64::MAX,
            old(self).total_ns + elapsed_ns <= u128::MAX,
        ensures
            *final(self) == (RenderStats {
                frame_count: (old(self).frame_count + 1) as u64,
                total_ns: (old(self).total_ns + elapsed_ns) as u128,
                max_ns: if elapsed_ns > old(self).max_ns {
                    elapsed_ns
                } else {
                    old(self).max_ns
                },
            }),
            report == (final(self).frame_count % 300 == 0),
    {
        self.frame_count = self.frame_count + 1;
        self.total_ns = self.total_ns + elapsed_ns;
        if elapsed_ns > self.max_ns {
            self.max_ns = elapsed_ns;
        }
        self.frame_count % 300 == 0
    }
}

// The built-in scoreboard.

/// A penalty of the built-in scoreboard.
pub open spec fn is_test_penalty(
    tiles: Seq<PenaltyTile>,
    shown: bool,
    player: u32,
    secs: int,
    reason: Seq<char>,
    goalkeeper: bool,
) -> bool {
    if shown {
        &&& tiles.len() == 1
        &&& tiles[0].player_number == player
        &&& tiles[0].secs_remaining == secs
        &&& tiles[0].penalty_reason@ == reason
        &&& tiles[0].is_goalkeeper == goalkeeper
    } else {
        tiles.len() == 0
    }
}

fn test_penalty(shown: bool, player: u32, secs: u32, reason: &str, goalkeeper: bool) -> (tiles: Vec<
    PenaltyTile,
>)
    ensures
        is_test_penalty(tiles@, shown, player, secs as int, reason@, goalkeeper),
{
    let mut tiles: Vec<PenaltyTile> = Vec::new();
    if shown {
        tiles.push(
            PenaltyTile {
                player_number: player,
                secs_remaining: secs,
                penalty_reason: reason.to_owned(),
                is_goalkeeper: goalkeeper,
            },
        );
    }
    tiles
}

/// The built-in scoreboard at a frame and a time of day.
pub open spec fn is_test_pattern(s: ScoreboardState, frame: u64, clock_text: Seq<char>) -> bool {
    let sec = frame / 30;
    &&& s.field_name@ == "FIELD A - HSL - RoboCup German Open 2026"@
    &&& s.clock_text@ == clock_text
    &&& s.home_team_name@ == "Hamburg Bit-Bots"@
    &&& s.away_team_name@ == "R-ZWEI KICKERS"@
    &&& s.home_team_color == Some(Rgba { r: 217, g: 25, b: 25, a: 255 })
    &&& s.away_team_color == Some(Rgba { r: 25, g: 50, b: 217, a: 255 })
    &&& s.home_team_goalkeeper_color == Some(Rgba { r: 255, g: 200, b: 0, a: 255 })
    &&& s.away_team_goalkeeper_color == Some(Rgba { r: 0, g: 200, b: 100, a: 255 })
    &&& s.home_score == (sec / 13) % 9
    &&& s.away_score == (sec / 11) % 9
    &&& s.game_clock_text@ == text::decimal2(((sec / 60) % 100) as nat) + seq![':']
        + text::decimal2((sec % 60) as nat)
    &&& s.clock_stopped == (frame % 600 < 60)
    &&& s.phase_text@ == "1st"@
    &&& s.state_text@ == "playing"@
    &&& s.home_message_budget == 1234
    &&& s.away_message_budget == 1190
    &&& s.shootout is None
    &&& is_test_penalty(
        s.home_penalty_timers@,
        frame % 240 < 60,
        3,
        60 - frame % 240,
        "PUSHING"@,
        false,
    )
    &&& is_test_penalty(
        s.away_penalty_timers@,
        frame % 360 < 90,
        1,
        90 - frame % 360,
        "BALL HOLDING"@,
        true,
    )
}

/// The built-in scoreboard, at a time of day.
pub fn test_pattern_at(frame: u64, clock_text: String) -> (s: ScoreboardState)
    ensures
        is_test_pattern(s, frame, clock_text@),
        s.wf(),
{
    let sec: u64 = frame / 30;
    let home: u64 = frame % 240;
    let away: u64 = frame % 360;
    let home_secs: u32 = if home < 60 {
        60 - home as u32
    } else {
        0
    };
    let away_secs: u32 = if away < 90 {
        90 - away as u32
    } else {
        0
    };
    let mut game_clock_text: String = String::new();
    text::push_decimal2(&mut game_clock_text, (sec / 60) % 100);
    game_clock_text.push(':');
    text::push_decimal2(&mut game_clock_text, sec % 60);
    assert(game_clock_text@ =~= text::decimal2(((sec / 60) % 100) as nat) + seq![':']
        + text::decimal2((sec % 60) as nat));
    ScoreboardState {
        field_name: "FIELD A - HSL - RoboCup German Open 2026".to_owned(),
        clock_text,
        home_team_name: "Hamburg Bit-Bots".to_owned(),
        away_team_name: "R-ZWEI KICKERS".to_owned(),
        home_team_color: Some(Rgba::opaque(217, 25, 25)),
        away_team_color: Some(Rgba::opaque(25, 50, 217)),
        home_team_goalkeeper_color: Some(Rgba::opaque(255, 200, 0)),
        away_team_goalkeeper_color: Some(Rgba::opaque(0, 200, 100)),
        home_score: ((sec / 13) % 9) as u32,
        away_score: ((sec / 11) % 9) as u32,
        game_clock_text,
        clock_stopped: frame % 600 < 60,
        phase_text: "1st".to_owned(),
        state_text: "playing".to_owned(),
        home_message_budget: 1234,
        away_message_budget: 1190,
        shootout: None,
        home_penalty_timers: test_penalty(home < 60, 3, home_secs, "PUSHING", false),
        away_penalty_timers: test_penalty(away < 90, 1, away_secs, "BALL HOLDING", true),
    }
}

/// The built-in scoreboard, at the current time of day.
pub fn test_pattern_state(frame: u64) -> (s: ScoreboardState)
    ensures
        is_test_pattern(s, frame, s.clock_text@),
        clock::is_clock_text(s.clock_text@),
        s.wf(),
{
    test_pattern_at(frame, clock::wall_clock())
}

// The element.

/// What the element holds while it runs.
pub struct Runtime {
    /// How frames are laid out, once that is known.
    pub planes: Option<PlaneLayout>,
    pub cache: GlyphCache,
    pub stats: RenderStats,
}

/// The element.
pub struct Nv12Overlay {
    pub settings: OverlaySettings,
    pub external: ExternalState,
    /// The sizes that were handed in.
    pub sizes: Option<LayoutSizes>,
    pub runtime: Option<Runtime>,
}

/// Which faces were loaded.
#[derive(Debug, Clone, Copy, PartialEq, Eq, Structural)]
pub struct FontsLoaded {
    pub regular: bool,
    pub bold: bool,
}

/// What became of a frame.
#[derive(Debug, Clone, Copy, PartialEq, Eq, Structural)]
pub enum FrameOutcome {
    /// The element is switched off or not ready.
    PassedThrough,
    /// The frame cannot be painted.
    Skipped,
    Painted(DispatchStats),
}

impl Nv12Overlay {
    pub open spec fn wf(self) -> bool {
        self.runtime matches Some(rt) ==> rt.cache.wf()
    }

    /// The sizes in force.
    pub open spec fn sizes_used(self) -> LayoutSizes {
        match self.sizes {
            Some(s) => s,
            None => scoreboard::default_sizes(),
        }
    }

    /// The scoreboard `s` is the one to paint.
    pub open spec fn shows(self, s: ScoreboardState) -> bool {
        if self.settings.show_test_overlay {
            clock::is_clock_text(s.clock_text@) && (self.runtime matches Some(rt)
                && is_test_pattern(s, rt.stats.frame_count, s.clock_text@))
        } else {
            match self.external.cached {
                Some(c) => s == c,
                None => is_blank(s),
            }
        }
    }

    pub fn new() -> (e: Nv12Overlay)
        ensures
            e.wf(),
            e.settings.enabled,
            !e.settings.show_test_overlay,
            e.settings.font_regular_path is None,
            e.settings.font_bold_path is None,
            e.external.cached is None,
            e.external.parse_count == 0,
            e.external.parse_err_count == 0,
            e.sizes is None,
            e.runtime is None,
    {
        Nv12Overlay {
            settings: OverlaySettings::default(),
            external: ExternalState::default(),
            sizes: None,
            runtime: None,
        }
    }

    /// The element is ready to run: nothing is painted or rendered yet, and the faces
    /// are loaded from the font files as `loaded` says.
    pub open spec fn ready(
        self,
        regular: Option<&str>,
        bold: Option<&str>,
        loaded: FontsLoaded,
    ) -> bool {
        &&& self.runtime matches Some(rt)
        &&& rt.planes is None
        &&& rt.stats == (RenderStats { frame_count: 0, total_ns: 0, max_ns: 0 })
        &&& forall|k: GlyphKey| #[trigger] rt.cache.glyph(k) is None
        &&& rt.cache.seen_missing() == Set::<u32>::empty()
        &&& rt.cache.pending_missing() == Seq::<char>::empty()
        &&& face_loaded(&rt.cache, FontId(0), FontStyle::Regular, regular, loaded.regular)
        &&& face_loaded(&rt.cache, FontId(1), FontStyle::Bold, bold, loaded.bold)
    }

    /// Get ready to run with the cache that was made, if it was, and with the font
    /// files that were found. A face that cannot be loaded is done without.
    pub fn start_with(
        &mut self,
        made: Result<GlyphCache, GlyphError>,
        regular: Option<&str>,
        bold: Option<&str>,
    ) -> (r: Result<FontsLoaded, GlyphError>)
        requires
            old(self).wf(),
            made matches Ok(c) ==> c.wf() && c.blank(),
        ensures
            final(self).wf(),
            final(self).settings == old(self).settings,
            final(self).external == old(self).external,
            final(self).sizes == old(self).sizes,
            r is Ok <==> made is Ok,
            match r {
                Ok(loaded) => final(self).ready(regular, bold, loaded),
                Err(e) => made == Err::<GlyphCache, GlyphError>(e) && final(self).runtime == old(
                    self,
                ).runtime,
            },
    {
        let mut cache: GlyphCache = match made {
            Ok(c) => c,
            Err(e) => {
                return Err(e);
            },
        };
        proof {
            assert forall|k: GlyphKey| #[trigger] cache.glyph(k) is None by {
                cache.law_cached_keys(k);
            }
        }
        let got_regular: bool = match regular {
            Some(p) => cache.register_font(FontId(0), FontStyle::Regular, p).is_ok(),
            None => false,
        };
        let got_bold: bool = match bold {
            Some(p) => cache.register_font(FontId(1), FontStyle::Bold, p).is_ok(),
            None => false,
        };
        self.runtime = Some(
            Runtime {
                planes: None,
                cache,
                stats: RenderStats { frame_count: 0, total_ns: 0, max_ns: 0 },
            },
        );
        Ok(FontsLoaded { regular: got_regular, bold: got_bold })
    }

    /// Get ready to run, with the font files that were found. Whether FreeType
    /// starts is not stated.
    pub fn start(&mut self, regular: Option<&str>, bold: Option<&str>) -> (r: Result<
        FontsLoaded,
        GlyphError,
    >)
        requires
            old(self).wf(),
        ensures
            final(self).wf(),
            final(self).settings == old(self).settings,
            final(self).external == old(self).external,
            final(self).sizes == old(self).sizes,
            match r {
                Ok(loaded) => final(self).ready(regular, bold, loaded),
                Err(e) => e == GlyphError::LibraryInit && final(self).runtime == old(self).runtime,
            },
    {
        self.start_with(GlyphCache::new(), regular, bold)
    }

    /// Take up sizes. What is malformed changes nothing.
    pub fn accept_sizes(&mut self, input: SizesInput)
        ensures
            *final(self) == (Nv12Overlay {
                sizes: match input {
                    SizesInput::Clear => None,
                    SizesInput::Parsed(s) => Some(s),
                    SizesInput::Malformed => old(self).sizes,
                },
                ..*old(self)
            }),
    {
        match input {
            SizesInput::Clear => {
                self.sizes = None;
            },
            SizesInput::Parsed(s) => {
                self.sizes = Some(s);
            },
            SizesInput::Malformed => {},
        }
    }

    /// Stop. Gives what painting has cost, if it ran.
    pub fn stop(&mut self) -> (r: Option<RenderStats>)
        requires
            old(self).wf(),
        ensures
            final(self).wf(),
            final(self).settings == old(self).settings,
            final(self).external == old(self).external,
            final(self).sizes == old(self).sizes,
            final(self).runtime is None,
            r == (match old(self).runtime {
                Some(rt) => Some(rt.stats),
                None => None,
            }),
    {
        let r: Option<RenderStats> = match &self.runtime {
            Some(rt) => Some(rt.stats),
            None => None,
        };
        self.runtime = None;
        r
    }

    /// Take note of how frames are laid out, and render ahead what texts on
    /// such frames need. False if the element was not started.
    pub fn set_caps(&mut self, planes: PlaneLayout) -> (ok: bool)
        requires
            old(self).wf(),
        ensures
            final(self).wf(),
            final(self).settings == old(self).settings,
            final(self).external == old(self).external,
            final(self).sizes == old(self).sizes,
            match old(self).runtime {
                Some(before) => {
                    &&& ok
                    &&& final(self).runtime matches Some(rt)
                    &&& rt.planes == Some(planes)
                    &&& rt.stats == before.stats
                    &&& rt.cache.extends(&before.cache)
                    &&& forall|px: u32|
                        is_preload_size(px, planes.width as int) ==> #[trigger] faces_preloaded(
                            &rt.cache,
                            px,
                        )
                },
                None => !ok && final(self).runtime is None,
            },
    {
        match self.runtime.take() {
            Some(mut rt) => {
                let ghost first = rt.cache;
                let sizes: Vec<u32> = preload_sizes(planes.width);
                let mut i: usize = 0;
                while i < sizes.len()
                    invariant
                        i <= sizes@.len(),
                        rt.cache.wf(),
                        rt.cache.extends(&first),
                        rt.planes == old(self).runtime->0.planes,
                        rt.stats == old(self).runtime->0.stats,
                        forall|j: int|
                            0 <= j < i ==> faces_preloaded(&rt.cache, #[trigger] sizes@[j]),
                    decreases sizes@.len() - i,
                {
                    let ghost before = rt.cache;
                    if rt.cache.has_font(FontId(0), FontStyle::Regular) {
                        let _ = rt.cache.preload_ascii(FontId(0), sizes[i], FontStyle::Regular);
                    }
                    let ghost between = rt.cache;
                    if rt.cache.has_font(FontId(1), FontStyle::Bold) {
                        let _ = rt.cache.preload_ascii(FontId(1), sizes[i], FontStyle::Bold);
                    }
                    proof {
                        glyphs::lemma_extends_trans(&before, &between, &rt.cache);
                        glyphs::lemma_extends_trans(&first, &before, &rt.cache);
                        assert forall|j: int| 0 <= j < i + 1 implies faces_preloaded(
                            &rt.cache,
                            #[trigger] sizes@[j],
                        ) by {
                            if j < i {
                                lemma_faces_preloaded_stay(&before, &rt.cache, sizes@[j]);
                            } else {
                                assert(rt.cache.has_face(FontId(0), FontStyle::Regular)
                                    == between.has_face(FontId(0), FontStyle::Regular));
                                assert(between.has_face(FontId(0), FontStyle::Regular)
                                    == before.has_face(FontId(0), FontStyle::Regular));
                                assert(rt.cache.has_face(FontId(1), FontStyle::Bold)
                                    == between.has_face(FontId(1), FontStyle::Bold));
                                if before.has_face(FontId(0), FontStyle::Regular) {
                                    glyphs::lemma_preloaded_stays(
                                        &between,
                                        &rt.cache,
                                        FontId(0),
                                        sizes@[j],
                                        FontStyle::Regular,
                                    );
                                }
                            }
                        }
                    }
                    i = i + 1;
                }
                proof {
                    assert forall|px: u32|
                        is_preload_size(px, planes.width as int) implies #[trigger] faces_preloaded(
                        &rt.cache,
                        px,
                    ) by {
                        assert(sizes@.contains(px));
                        let j = choose|j: int| 0 <= j < sizes@.len() && sizes@[j] == px;
                        assert(faces_preloaded(&rt.cache, sizes@[j]));
                    }
                }
                rt.planes = Some(planes);
                self.runtime = Some(rt);
                true
            },
            None => {
                self.runtime = None;
                false
            },
        }
    }

    /// Paint the scoreboard into a frame. Frames that cannot be painted are
    /// left as they are.
    pub fn transform_ip(&mut self, data: &mut [u8]) -> (r: FrameOutcome)
        requires
            old(self).wf(),
        ensures
            final(self).wf(),
            final(self).settings == old(self).settings,
            final(self).external == old(self).external,
            final(self).sizes == old(self).sizes,
            final(data)@.len() == old(data)@.len(),
            match old(self).runtime {
                Some(before) => {
                    &&& final(self).runtime matches Some(rt)
                    &&& rt.planes == before.planes
                    &&& rt.stats == before.stats
                    &&& rt.cache.extends(&before.cache)
                    &&& match before.planes {
                        Some(p) if old(self).settings.enabled => exists|s: ScoreboardState| #[trigger]
                            old(self).shows(s) && match r {
                                FrameOutcome::PassedThrough => false,
                                FrameOutcome::Skipped => !paintable(
                                    p,
                                    old(data)@.len() as int,
                                    s,
                                    old(self).sizes_used(),
                                ) && final(data)@ == old(data)@,
                                FrameOutcome::Painted(stats) => {
                                    &&& paintable(
                                        p,
                                        old(data)@.len() as int,
                                        s,
                                        old(self).sizes_used(),
                                    )
                                    &&& scoreboard_painted(
                                        p.picture(old(data)@),
                                        p.picture(final(data)@),
                                        before.cache,
                                        rt.cache,
                                        scoreboard::overlay_drawn(
                                            &s,
                                            &params_for(p, old(self).sizes_used()),
                                        ),
                                        stats,
                                    )
                                    &&& forall|i: int|
                                        0 <= i < old(data)@.len() && p.outside(i)
                                            ==> #[trigger] final(data)@[i] == old(data)@[i]
                                },
                            },
                        _ => r is PassedThrough && final(data)@ == old(data)@,
                    }
                },
                None => final(self).runtime is None && r is PassedThrough && final(data)@
                    == old(data)@,
            },
    {
        let sizes: LayoutSizes = match self.sizes {
            Some(s) => s,
            None => LayoutSizes::default(),
        };
        match self.runtime.take() {
            Some(mut rt) => {
                let planes: Option<PlaneLayout> = rt.planes;
                let p: PlaneLayout = match planes {
                    Some(p) => p,
                    None => {
                        self.runtime = Some(rt);
                        return FrameOutcome::PassedThrough;
                    },
                };
                if !self.settings.enabled {
                    self.runtime = Some(rt);
                    return FrameOutcome::PassedThrough;
                }
                let painted: Option<DispatchStats> = if self.settings.show_test_overlay {
                    let s: ScoreboardState = test_pattern_state(rt.stats.frame_count);
                    assert(old(self).shows(s));
                    paint_buffer(data, p, &mut rt.cache, &s, sizes)
                } else {
                    match &self.external.cached {
                        Some(s) => {
                            assert(old(self).shows(*s));
                            paint_buffer(data, p, &mut rt.cache, s, sizes)
                        },
                        None => {
                            let s: ScoreboardState = ScoreboardState::default();
                            assert(old(self).shows(s));
                            paint_buffer(data, p, &mut rt.cache, &s, sizes)
                        },
                    }
                };
                self.runtime = Some(rt);
                match painted {
                    Some(stats) => FrameOutcome::Painted(stats),
                    None => FrameOutcome::Skipped,
                }
            },
            None => {
                self.runtime = None;
                FrameOutcome::PassedThrough
            },
        }
    }
}

/// An empty scoreboard.
pub open spec fn is_blank(s: ScoreboardState) -> bool {
    &&& s.field_name@.len() == 0
    &&& s.clock_text@.len() == 0
    &&& s.home_team_name@.len() == 0
    &&& s.away_team_name@.len() == 0
    &&& s.home_team_color is None
    &&& s.away_team_color is None
    &&& s.home_team_goalkeeper_color is None
    &&& s.away_team_goalkeeper_color is None
    &&& s.home_score == 0
    &&& s.away_score == 0
    &&& s.game_clock_text@.len() == 0
    &&& !s.clock_stopped
    &&& s.phase_text@.len() == 0
    &&& s.state_text@.len() == 0
    &&& s.home_message_budget == 0
    &&& s.away_message_budget == 0
    &&& s.shootout is None
    &&& s.home_penalty_timers@.len() == 0
    &&& s.away_penalty_timers@.len() == 0
}

} // verus!
