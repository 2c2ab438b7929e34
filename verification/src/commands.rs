//! Pixel overlay commands and the dispatcher that paints them.
//!
//! Commands know nothing of games. Layouts emit lists of them; later commands
//! paint over earlier ones.

use vstd::prelude::*;
use crate::glyphs;
use crate::glyphs::{
    layout_left_to_right, FontId, FontStyle, GlyphBitmap, GlyphCache, GlyphKey, Placement,
};
use crate::renderer::color;
use crate::renderer::color::Rgba;
use crate::renderer::fill_rect;
use crate::renderer::fill_rect::{fill_rect_alpha, fill_rect_opaque};
use crate::renderer::frame::{Nv12FrameMut, Picture, Rect};
use crate::renderer::glyph_blit;
use crate::renderer::glyph_blit::blit_glyph;

verus! {

/// One drawing command. Anchors may be negative: painting clips.
#[derive(Debug, Clone, PartialEq, Eq)]
pub enum OverlayCommand {
    /// Filled rectangle, blended with weight `color.a`.
    FillRect { x: i32, y: i32, width: i32, height: i32, color: Rgba },
    /// Text whose baseline starts at `(x, y)`.
    DrawText {
        x: i32,
        y: i32,
        text: String,
        font_id: FontId,
        size_px: u32,
        style: FontStyle,
        color: Rgba,
    },
}

/// What a command says, with its numbers as integers and its text as a
/// sequence of characters.
pub enum Draw {
    Fill { x: int, y: int, width: int, height: int, color: Rgba },
    Text {
        x: int,
        y: int,
        text: Seq<char>,
        font_id: FontId,
        size_px: int,
        style: FontStyle,
        color: Rgba,
    },
}

impl View for OverlayCommand {
    type V = Draw;

    open spec fn view(&self) -> Draw {
        match self {
            OverlayCommand::FillRect { x, y, width, height, color } => Draw::Fill {
                x: *x as int,
                y: *y as int,
                width: *width as int,
                height: *height as int,
                color: *color,
            },
            OverlayCommand::DrawText { x, y, text, font_id, size_px, style, color } => Draw::Text {
                x: *x as int,
                y: *y as int,
                text: text@,
                font_id: *font_id,
                size_px: *size_px as int,
                style: *style,
                color: *color,
            },
        }
    }
}

/// What a list of commands says.
pub open spec fn drawn(cmds: Seq<OverlayCommand>) -> Seq<Draw> {
    Seq::new(cmds.len(), |i: int| cmds[i]@)
}

/// What a pass of [`dispatch_commands`] did.
#[derive(Debug, Default, Clone, Copy, PartialEq, Eq, Structural)]
pub struct DispatchStats {
    pub fill_rect_executed: u32,
    pub draw_text_executed: u32,
    pub skipped_invalid: u32,
    pub skipped_no_op: u32,
}

/// What becomes of one command.
pub enum Outcome {
    Filled,
    Drawn,
    /// Nothing to see: no weight, no size or no text.
    NoOp,
    /// No face for the font and style.
    Invalid,
}

pub open spec fn outcome(cache: &GlyphCache, cmd: OverlayCommand) -> Outcome {
    match cmd {
        OverlayCommand::FillRect { color, .. } => if color.a == 0 {
            Outcome::NoOp
        } else {
            Outcome::Filled
        },
        OverlayCommand::DrawText { text, font_id, size_px, style, color, .. } => if size_px == 0
            || color.a == 0 || text@.len() == 0 {
            Outcome::NoOp
        } else if cache.has_face(font_id, style) {
            Outcome::Drawn
        } else {
            Outcome::Invalid
        },
    }
}

/// How many of the first `n` commands were filled, drawn, invalid and no-ops.
pub open spec fn counts(cache: &GlyphCache, cmds: Seq<OverlayCommand>, n: int) -> (
    int,
    int,
    int,
    int,
)
    decreases n,
{
    if n <= 0 {
        (0, 0, 0, 0)
    } else {
        let (f, d, i, o) = counts(cache, cmds, n - 1);
        match outcome(cache, cmds[n - 1]) {
            Outcome::Filled => (f + 1, d, i, o),
            Outcome::Drawn => (f, d + 1, i, o),
            Outcome::Invalid => (f, d, i + 1, o),
            Outcome::NoOp => (f, d, i, o + 1),
        }
    }
}

/// A picture after the first `n` placed glyphs were drawn on it in turn.
pub open spec fn with_glyphs(
    before: Picture,
    cache: &GlyphCache,
    placements: Seq<Placement>,
    fg: Rgba,
    n: int,
) -> Picture
    decreases n,
{
    if n <= 0 {
        before
    } else {
        let p = placements[n - 1];
        let prev = with_glyphs(before, cache, placements, fg, n - 1);
        match cache.glyph(p.key) {
            Some(g) => glyph_blit::blitted(prev, &g, p.x as int, p.y as int, fg),
            None => prev,
        }
    }
}

/// A picture after one command. `placements` is the layout of its text.
pub open spec fn with_command(
    before: Picture,
    cache: &GlyphCache,
    cmd: OverlayCommand,
    placements: Seq<Placement>,
) -> Picture {
    match (outcome(cache, cmd), cmd) {
        (Outcome::Filled, OverlayCommand::FillRect { x, y, width, height, color }) =>
            fill_rect::filled(
                before,
                Rect { x, y, width, height },
                color::ycbcr_of(color.r, color.g, color.b),
                color.a,
            ),
        (Outcome::Drawn, OverlayCommand::DrawText { color, .. }) => with_glyphs(
            before,
            cache,
            placements,
            color,
            placements.len() as int,
        ),
        _ => before,
    }
}

/// A picture after the first `n` commands, in list order. `layouts` holds the
/// layout of each command's text.
pub open spec fn with_commands(
    before: Picture,
    cache: &GlyphCache,
    cmds: Seq<OverlayCommand>,
    layouts: Seq<Seq<Placement>>,
    n: int,
) -> Picture
    decreases n,
{
    if n <= 0 {
        before
    } else {
        with_command(
            with_commands(before, cache, cmds, layouts, n - 1),
            cache,
            cmds[n - 1],
            layouts[n - 1],
        )
    }
}

/// `layouts` holds, for each text that is drawn, a layout of it for some
/// outcome of the glyph look-ups; every placed glyph is cached afterwards.
pub open spec fn layouts_of(
    before: &GlyphCache,
    after: &GlyphCache,
    cmds: Seq<OverlayCommand>,
    layouts: Seq<Seq<Placement>>,
) -> bool {
    &&& layouts.len() == cmds.len()
    &&& forall|i: int|
        #![trigger layouts[i]]
        0 <= i < cmds.len() ==> {
            &&& forall|j: int|
                0 <= j < layouts[i].len() ==> after.glyph((#[trigger] layouts[i][j]).key) is Some
            &&& outcome(before, cmds[i]) is Drawn ==> (cmds[i] matches OverlayCommand::DrawText {
                x,
                y,
                text,
                font_id,
                size_px,
                style,
                ..
            } ==> glyphs::laid_out(
                before,
                after,
                glyphs::text_keys(text@, font_id, size_px, style),
                x,
                y,
                layouts[i],
            ))
        }
}

/// A command draws a text that has the key.
pub open spec fn wants(cmd: OverlayCommand, key: GlyphKey) -> bool {
    cmd matches OverlayCommand::DrawText { text, font_id, size_px, style, .. }
        && glyphs::text_keys(text@, font_id, size_px, style).contains(key)
}

/// Some command draws a text that has the key.
pub open spec fn wanted(cmds: Seq<OverlayCommand>, key: GlyphKey) -> bool {
    exists|i: int| 0 <= i < cmds.len() && #[trigger] wants(cmds[i], key)
}

/// What dispatching commands does: `after` is `before` with the commands painted
/// over it in list order, `stats` counts what became of them, and the cache grew
/// from `c0` to `c1` by characters of their texts at most.
pub open spec fn dispatched(
    before: Picture,
    after: Picture,
    c0: &GlyphCache,
    c1: &GlyphCache,
    cmds: Seq<OverlayCommand>,
    stats: DispatchStats,
) -> bool {
    &&& c1.extends(c0)
    &&& forall|key: GlyphKey|
        !wanted(cmds, key) ==> #[trigger] c1.glyph(key) == c0.glyph(key)
    &&& (
        stats.fill_rect_executed as int,
        stats.draw_text_executed as int,
        stats.skipped_invalid as int,
        stats.skipped_no_op as int,
    ) == counts(c0, cmds, cmds.len() as int)
    &&& exists|layouts: Seq<Seq<Placement>>| #[trigger]
        layouts_of(c0, c1, cmds, layouts) && after == with_commands(
            before,
            c1,
            cmds,
            layouts,
            cmds.len() as int,
        )
}

proof fn lemma_not_wanted(a: Seq<OverlayCommand>, b: Seq<OverlayCommand>, key: GlyphKey)
    requires
        !wanted(a + b, key),
    ensures
        !wanted(a, key),
        !wanted(b, key),
        forall|i: int| 0 <= i < b.len() ==> !wants(#[trigger] b[i], key),
{
    if wanted(a, key) {
        let i = choose|i: int| 0 <= i < a.len() && #[trigger] wants(a[i], key);
        assert(wants((a + b)[i], key));
    }
    assert forall|i: int| 0 <= i < b.len() implies !wants(#[trigger] b[i], key) by {
        assert((a + b)[a.len() + i] == b[i]);
        assert(!wants((a + b)[a.len() + i], key));
    }
}

proof fn lemma_with_glyphs_stable(
    before: Picture,
    a: &GlyphCache,
    b: &GlyphCache,
    placements: Seq<Placement>,
    fg: Rgba,
    n: int,
)
    requires
        b.extends(a),
        n <= placements.len(),
        forall|i: int| 0 <= i < n ==> a.glyph((#[trigger] placements[i]).key) is Some,
    ensures
        with_glyphs(before, a, placements, fg, n) == with_glyphs(before, b, placements, fg, n),
    decreases n,
{
    if n > 0 {
        lemma_with_glyphs_stable(before, a, b, placements, fg, n - 1);
        assert(a.glyph(placements[n - 1].key) is Some);
    }
}

proof fn lemma_with_commands_stable(
    before: Picture,
    a: &GlyphCache,
    b: &GlyphCache,
    cmds: Seq<OverlayCommand>,
    la: Seq<Seq<Placement>>,
    lb: Seq<Seq<Placement>>,
    n: int,
)
    requires
        b.extends(a),
        n <= cmds.len(),
        n <= la.len(),
        n <= lb.len(),
        forall|i: int| 0 <= i < n ==> la[i] == lb[i],
        forall|i: int, j: int|
            0 <= i < n && 0 <= j < la[i].len() ==> a.glyph((#[trigger] la[i][j]).key) is Some,
    ensures
        with_commands(before, a, cmds, la, n) == with_commands(before, b, cmds, lb, n),
    decreases n,
{
    if n > 0 {
        lemma_with_commands_stable(before, a, b, cmds, la, lb, n - 1);
        let prev = with_commands(before, a, cmds, la, n - 1);
        match cmds[n - 1] {
            OverlayCommand::FillRect { .. } => {},
            OverlayCommand::DrawText { font_id, style, color, .. } => {
                assert(b.has_face(font_id, style) == a.has_face(font_id, style));
                lemma_with_glyphs_stable(
                    prev,
                    a,
                    b,
                    la[n - 1],
                    color,
                    la[n - 1].len() as int,
                );
            },
        }
    }
}

proof fn lemma_counts_bound(cache: &GlyphCache, cmds: Seq<OverlayCommand>, n: int)
    requires
        n >= 0,
    ensures
        ({
            let (f, d, i, o) = counts(cache, cmds, n);
            0 <= f && 0 <= d && 0 <= i && 0 <= o && f + d + i + o == n
        }),
    decreases n,
{
    if n > 0 {
        lemma_counts_bound(cache, cmds, n - 1);
    }
}

/// Draw placed glyphs in turn.
pub fn draw_placements(
    frame: &mut Nv12FrameMut<'_>,
    cache: &GlyphCache,
    placements: &Vec<Placement>,
    color: Rgba,
)
    requires
        old(frame).wf(),
        cache.wf(),
    ensures
        final(frame).wf(),
        // The frame still borrows the same planes.
        final(final(frame).y_plane)@ == final(old(frame).y_plane)@,
        final(final(frame).uv_plane)@ == final(old(frame).uv_plane)@,
        final(frame)@ == with_glyphs(old(frame)@, cache, placements@, color, placements@.len() as int),
{
    let mut i: usize = 0;
    while i < placements.len()
        invariant
            i <= placements@.len(),
            cache.wf(),
            frame.wf(),
            final(frame.y_plane)@ == final(old(frame).y_plane)@,
            final(frame.uv_plane)@ == final(old(frame).uv_plane)@,
            frame@ == with_glyphs(old(frame)@, cache, placements@, color, i as int),
        decreases placements@.len() - i,
    {
        let p: Placement = placements[i];
        proof {
            cache.law_cached_keys(p.key);
        }
        match cache.get(p.key) {
            Some(g) => blit_glyph(frame, g, p.x, p.y, color),
            None => {},
        }
        i = i + 1;
    }
}

/// Paint `commands` over `frame` in list order. A command that cannot be
/// painted is skipped, so that no command list stops the stream. The cache
/// renders what it has not seen before.
pub fn dispatch_commands(
    frame: &mut Nv12FrameMut<'_>,
    cache: &mut GlyphCache,
    commands: &[OverlayCommand],
) -> (stats: DispatchStats)
    requires
        old(frame).wf(),
        old(cache).wf(),
        commands@.len() <= u32::MAX,
    ensures
        final(frame).wf(),
        // The frame still borrows the same planes.
        final(final(frame).y_plane)@ == final(old(frame).y_plane)@,
        final(final(frame).uv_plane)@ == final(old(frame).uv_plane)@,
        final(cache).wf(),
        dispatched(
            old(frame)@,
            final(frame)@,
            old(cache),
            final(cache),
            commands@,
            stats,
        ),
{
    let mut stats = DispatchStats {
        fill_rect_executed: 0,
        draw_text_executed: 0,
        skipped_invalid: 0,
        skipped_no_op: 0,
    };
    let ghost first = *cache;
    let ghost start = frame@;
    let ghost mut layouts: Seq<Seq<Placement>> = Seq::empty();
    let mut i: usize = 0;
    while i < commands.len()
        invariant
            i <= commands@.len() <= u32::MAX,
            frame.wf(),
            final(frame.y_plane)@ == final(old(frame).y_plane)@,
            final(frame.uv_plane)@ == final(old(frame).uv_plane)@,
            cache.wf(),
            cache.extends(&first),
            forall|key: GlyphKey|
                !wanted(commands@.take(i as int), key) ==> #[trigger] cache.glyph(key)
                    == first.glyph(key),
            (
                stats.fill_rect_executed as int,
                stats.draw_text_executed as int,
                stats.skipped_invalid as int,
                stats.skipped_no_op as int,
            ) == counts(&first, commands@, i as int),
            layouts.len() == i,
            layouts_of(&first, cache, commands@.take(i as int), layouts),
            frame@ == with_commands(start, cache, commands@, layouts, i as int),
        decreases commands@.len() - i,
    {
        let ghost before = *cache;
        let ghost layouts0 = layouts;
        let ghost frame0 = frame@;
        let ghost mut layout: Seq<Placement> = Seq::empty();
        proof {
            lemma_counts_bound(&first, commands@, i as int);
        }
        match &commands[i] {
            OverlayCommand::FillRect { x, y, width, height, color } => {
                if color.a == 0 {
                    stats.skipped_no_op = stats.skipped_no_op + 1;
                } else {
                    let rect = Rect { x: *x, y: *y, width: *width, height: *height };
                    if color.a == 255 {
                        fill_rect_opaque(frame, rect, *color);
                    } else {
                        fill_rect_alpha(frame, rect, *color);
                    }
                    stats.fill_rect_executed = stats.fill_rect_executed + 1;
                }
            },
            OverlayCommand::DrawText { x, y, text, font_id, size_px, style, color } => {
                assert(cache.has_face(*font_id, *style) == first.has_face(*font_id, *style));
                if *size_px == 0 || color.a == 0 || text.as_str().is_empty() {
                    stats.skipped_no_op = stats.skipped_no_op + 1;
                } else {
                    match layout_left_to_right(
                        cache,
                        text.as_str(),
                        *font_id,
                        *size_px,
                        *style,
                        *x,
                        *y,
                    ) {
                        None => {
                            stats.skipped_invalid = stats.skipped_invalid + 1;
                        },
                        Some(placements) => {
                            draw_placements(frame, cache, &placements, *color);
                            stats.draw_text_executed = stats.draw_text_executed + 1;
                            proof {
                                layout = placements@;
                                glyphs::lemma_laid_out_extends(
                                    &first,
                                    &before,
                                    cache,
                                    cache,
                                    glyphs::text_keys(text@, *font_id, *size_px, *style),
                                    *x,
                                    *y,
                                    layout,
                                );
                                assert(cache.has_face(*font_id, *style));
                            }
                        },
                    }
                }
            },
        }
        proof {
            layouts = layouts0.push(layout);
            assert(cache.extends(&before));
            glyphs::lemma_extends_trans(&first, &before, cache);
            assert forall|a: int, b: int|
                0 <= a < i && 0 <= b < layouts0[a].len() implies before.glyph(
                (#[trigger] layouts0[a][b]).key,
            ) is Some by {}
            lemma_with_commands_stable(
                start,
                &before,
                cache,
                commands@,
                layouts0,
                layouts,
                i as int,
            );
            lemma_layouts_push(
                &first,
                &before,
                cache,
                commands@.take(i as int),
                commands@[i as int],
                layouts0,
                layout,
            );
            assert(commands@.take(i + 1) =~= commands@.take(i as int).push(commands@[i as int]));
            assert forall|key: GlyphKey| !wanted(commands@.take(i + 1), key) implies #[trigger]
                cache.glyph(key) == first.glyph(key) by {
                assert(commands@.take(i as int) + seq![commands@[i as int]] =~= commands@.take(
                    i + 1,
                ));
                lemma_not_wanted(commands@.take(i as int), seq![commands@[i as int]], key);
                assert(seq![commands@[i as int]][0] == commands@[i as int]);
                assert(before.glyph(key) == first.glyph(key));
            }
        }
        i = i + 1;
    }
    assert(commands@.take(i as int) =~= commands@);
    assert(layouts_of(&first, cache, commands@, layouts));
    stats
}

proof fn lemma_layouts_push(
    first: &GlyphCache,
    before: &GlyphCache,
    after: &GlyphCache,
    cmds: Seq<OverlayCommand>,
    cmd: OverlayCommand,
    layouts: Seq<Seq<Placement>>,
    layout: Seq<Placement>,
)
    requires
        layouts_of(first, before, cmds, layouts),
        after.extends(before),
        forall|j: int| 0 <= j < layout.len() ==> after.glyph((#[trigger] layout[j]).key) is Some,
        outcome(first, cmd) is Drawn ==> (cmd matches OverlayCommand::DrawText {
            x,
            y,
            text,
            font_id,
            size_px,
            style,
            ..
        } ==> glyphs::laid_out(
            first,
            after,
            glyphs::text_keys(text@, font_id, size_px, style),
            x,
            y,
            layout,
        )),
    ensures
        layouts_of(first, after, cmds.push(cmd), layouts.push(layout)),
{
    let c = cmds.push(cmd);
    let l = layouts.push(layout);
    assert forall|i: int|
        #![trigger l[i]]
        0 <= i < c.len() implies {
        &&& forall|j: int| 0 <= j < l[i].len() ==> after.glyph((#[trigger] l[i][j]).key) is Some
        &&& outcome(first, c[i]) is Drawn ==> (c[i] matches OverlayCommand::DrawText {
            x,
            y,
            text,
            font_id,
            size_px,
            style,
            ..
        } ==> glyphs::laid_out(
            first,
            after,
            glyphs::text_keys(text@, font_id, size_px, style),
            x,
            y,
            l[i],
        ))
    } by {
        if i < cmds.len() {
            assert(l[i] == layouts[i]);
            assert(c[i] == cmds[i]);
            match cmds[i] {
                OverlayCommand::DrawText { x, y, text, font_id, size_px, style, .. } => {
                    if outcome(first, cmds[i]) is Drawn {
                        glyphs::lemma_laid_out_extends(
                            first,
                            first,
                            before,
                            after,
                            glyphs::text_keys(text@, font_id, size_px, style),
                            x,
                            y,
                            layouts[i],
                        );
                    }
                },
                _ => {},
            }
        }
    }
}

/// Why a command is structurally invalid.
#[derive(Debug, Clone, Copy, PartialEq, Eq, Structural)]
pub enum CommandError {
    /// A text of size 0.
    ZeroFontSize,
    /// No face for the font and style.
    UnknownFont { font_id: FontId, style: FontStyle },
    /// A rectangle with a negative side. A side of 0 is allowed.
    NegativeDimensions,
}

/// A failure, and the index of the command it is about.
#[derive(Debug, Clone, Copy, PartialEq, Eq, Structural)]
pub struct ValidationFailure {
    pub index: usize,
    pub error: CommandError,
}

/// The failures of one command.
pub open spec fn command_errors(cache: &GlyphCache, cmd: OverlayCommand) -> Seq<CommandError> {
    match cmd {
        OverlayCommand::FillRect { width, height, .. } => if width < 0 || height < 0 {
            seq![CommandError::NegativeDimensions]
        } else {
            Seq::empty()
        },
        OverlayCommand::DrawText { size_px, font_id, style, .. } => (if size_px == 0 {
            seq![CommandError::ZeroFontSize]
        } else {
            Seq::empty()
        }) + (if cache.has_face(font_id, style) {
            Seq::empty()
        } else {
            seq![CommandError::UnknownFont { font_id, style }]
        }),
    }
}

/// The failures of the first `n` commands, in list order.
pub open spec fn failures_of(cache: &GlyphCache, cmds: Seq<OverlayCommand>, n: int) -> Seq<
    ValidationFailure,
>
    decreases n,
{
    if n <= 0 {
        Seq::empty()
    } else {
        let errors = command_errors(cache, cmds[n - 1]);
        failures_of(cache, cmds, n - 1) + Seq::new(
            errors.len(),
            |j: int| ValidationFailure { index: (n - 1) as usize, error: errors[j] },
        )
    }
}

/// Find the structural problems of a command list, without painting it.
pub fn validate_commands(cache: &GlyphCache, commands: &[OverlayCommand]) -> (failures: Vec<
    ValidationFailure,
>)
    ensures
        failures@ == failures_of(cache, commands@, commands@.len() as int),
{
    let mut failures: Vec<ValidationFailure> = Vec::new();
    let mut index: usize = 0;
    while index < commands.len()
        invariant
            index <= commands@.len(),
            failures@ == failures_of(cache, commands@, index as int),
        decreases commands@.len() - index,
    {
        match &commands[index] {
            OverlayCommand::FillRect { width, height, .. } => {
                if *width < 0 || *height < 0 {
                    failures.push(
                        ValidationFailure { index, error: CommandError::NegativeDimensions },
                    );
                }
            },
            OverlayCommand::DrawText { size_px, font_id, style, .. } => {
                if *size_px == 0 {
                    failures.push(ValidationFailure { index, error: CommandError::ZeroFontSize });
                }
                if !cache.has_font(*font_id, *style) {
                    failures.push(
                        ValidationFailure {
                            index,
                            error: CommandError::UnknownFont { font_id: *font_id, style: *style },
                        },
                    );
                }
            },
        }
        assert(failures@ =~= failures_of(cache, commands@, index + 1));
        index = index + 1;
    }
    failures
}

// What holds of every list.

/// Two pictures are laid out alike.
pub open spec fn same_frame(a: Picture, b: Picture) -> bool {
    &&& a.y.len() == b.y.len()
    &&& a.uv.len() == b.uv.len()
    &&& a.y_stride == b.y_stride
    &&& a.uv_stride == b.uv_stride
    &&& a.width == b.width
    &&& a.height == b.height
}

proof fn lemma_glyphs_keep_frame(
    before: Picture,
    cache: &GlyphCache,
    placements: Seq<Placement>,
    fg: Rgba,
    n: int,
)
    ensures
        same_frame(with_glyphs(before, cache, placements, fg, n), before),
    decreases n,
{
    if n > 0 {
        lemma_glyphs_keep_frame(before, cache, placements, fg, n - 1);
    }
}

proof fn lemma_commands_keep_frame(
    before: Picture,
    cache: &GlyphCache,
    cmds: Seq<OverlayCommand>,
    layouts: Seq<Seq<Placement>>,
    n: int,
)
    ensures
        same_frame(with_commands(before, cache, cmds, layouts, n), before),
    decreases n,
{
    if n > 0 {
        lemma_commands_keep_frame(before, cache, cmds, layouts, n - 1);
        let prev = with_commands(before, cache, cmds, layouts, n - 1);
        match cmds[n - 1] {
            OverlayCommand::FillRect { .. } => {},
            OverlayCommand::DrawText { color, .. } => {
                lemma_glyphs_keep_frame(
                    prev,
                    cache,
                    layouts[n - 1],
                    color,
                    layouts[n - 1].len() as int,
                );
            },
        }
    }
}

/// Dispatching changes pixels, never the size or layout of a frame.
pub proof fn law_painting_keeps_frame(
    before: Picture,
    after: Picture,
    c0: &GlyphCache,
    c1: &GlyphCache,
    cmds: Seq<OverlayCommand>,
    stats: DispatchStats,
)
    requires
        dispatched(before, after, c0, c1, cmds, stats),
    ensures
        same_frame(after, before),
{
    let layouts = choose|l: Seq<Seq<Placement>>| #[trigger]
        layouts_of(c0, c1, cmds, l) && after == with_commands(
            before,
            c1,
            cmds,
            l,
            cmds.len() as int,
        );
    lemma_commands_keep_frame(before, c1, cmds, layouts, cmds.len() as int);
}

proof fn lemma_lists_compose(
    before: Picture,
    cache: &GlyphCache,
    a: Seq<OverlayCommand>,
    b: Seq<OverlayCommand>,
    la: Seq<Seq<Placement>>,
    lb: Seq<Seq<Placement>>,
    n: int,
)
    requires
        a.len() == la.len(),
        b.len() == lb.len(),
        0 <= n <= b.len(),
    ensures
        with_commands(before, cache, a + b, la + lb, a.len() + n) == with_commands(
            with_commands(before, cache, a, la, a.len() as int),
            cache,
            b,
            lb,
            n,
        ),
    decreases n,
{
    if n > 0 {
        lemma_lists_compose(before, cache, a, b, la, lb, n - 1);
        assert((a + b)[a.len() + n - 1] == b[n - 1]);
        assert((la + lb)[a.len() + n - 1] == lb[n - 1]);
    } else {
        lemma_list_prefix(before, cache, a, b, la, lb, a.len() as int);
    }
}

proof fn lemma_list_prefix(
    before: Picture,
    cache: &GlyphCache,
    a: Seq<OverlayCommand>,
    b: Seq<OverlayCommand>,
    la: Seq<Seq<Placement>>,
    lb: Seq<Seq<Placement>>,
    n: int,
)
    requires
        a.len() == la.len(),
        0 <= n <= a.len(),
    ensures
        with_commands(before, cache, a + b, la + lb, n) == with_commands(before, cache, a, la, n),
    decreases n,
{
    if n > 0 {
        lemma_list_prefix(before, cache, a, b, la, lb, n - 1);
        assert((a + b)[n - 1] == a[n - 1]);
        assert((la + lb)[n - 1] == la[n - 1]);
    }
}

proof fn lemma_counts_compose(
    c0: &GlyphCache,
    c1: &GlyphCache,
    a: Seq<OverlayCommand>,
    b: Seq<OverlayCommand>,
    n: int,
)
    requires
        c1.same_faces(c0),
        0 <= n <= a.len() + b.len(),
    ensures
        counts(c0, a + b, n) == (if n <= a.len() {
            counts(c0, a, n)
        } else {
            let (f, d, i, o) = counts(c0, a, a.len() as int);
            let (g, e, j, p) = counts(c1, b, n - a.len());
            (f + g, d + e, i + j, o + p)
        }),
    decreases n,
{
    if n > 0 {
        lemma_counts_compose(c0, c1, a, b, n - 1);
        if n <= a.len() {
            assert((a + b)[n - 1] == a[n - 1]);
        } else {
            let cmd = b[n - 1 - a.len()];
            assert((a + b)[n - 1] == cmd);
            match cmd {
                OverlayCommand::FillRect { .. } => {},
                OverlayCommand::DrawText { font_id, style, .. } => {
                    assert(c1.has_face(font_id, style) == c0.has_face(font_id, style));
                },
            }
            assert(outcome(c0, cmd) == outcome(c1, cmd));
            assert(counts(c1, b, 0) == (0int, 0int, 0int, 0int));
        }
    }
}

/// The layouts of two lists that were painted in turn are the layouts of their
/// concatenation.
proof fn lemma_layouts_compose(
    c0: &GlyphCache,
    c1: &GlyphCache,
    c2: &GlyphCache,
    a: Seq<OverlayCommand>,
    b: Seq<OverlayCommand>,
    la: Seq<Seq<Placement>>,
    lb: Seq<Seq<Placement>>,
)
    requires
        c1.extends(c0),
        c2.extends(c1),
        layouts_of(c0, c1, a, la),
        layouts_of(c1, c2, b, lb),
    ensures
        layouts_of(c0, c2, a + b, la + lb),
{
    let c = a + b;
    let l = la + lb;
    assert forall|i: int|
        #![trigger l[i]]
        0 <= i < c.len() implies {
        &&& forall|j: int| 0 <= j < l[i].len() ==> c2.glyph((#[trigger] l[i][j]).key) is Some
        &&& outcome(c0, c[i]) is Drawn ==> (c[i] matches OverlayCommand::DrawText {
            x,
            y,
            text,
            font_id,
            size_px,
            style,
            ..
        } ==> glyphs::laid_out(
            c0,
            c2,
            glyphs::text_keys(text@, font_id, size_px, style),
            x,
            y,
            l[i],
        ))
    } by {
        if i < a.len() {
            assert(l[i] == la[i] && c[i] == a[i]);
            match a[i] {
                OverlayCommand::DrawText { x, y, text, font_id, size_px, style, .. } => {
                    if outcome(c0, a[i]) is Drawn {
                        glyphs::lemma_laid_out_extends(
                            c0,
                            c0,
                            c1,
                            c2,
                            glyphs::text_keys(text@, font_id, size_px, style),
                            x,
                            y,
                            la[i],
                        );
                    }
                },
                _ => {},
            }
        } else {
            let k = i - a.len();
            assert(l[i] == lb[k] && c[i] == b[k]);
            match b[k] {
                OverlayCommand::DrawText { x, y, text, font_id, size_px, style, .. } => {
                    assert(c1.has_face(font_id, style) == c0.has_face(font_id, style));
                    if outcome(c0, b[k]) is Drawn {
                        glyphs::lemma_laid_out_extends(
                            c0,
                            c1,
                            c2,
                            c2,
                            glyphs::text_keys(text@, font_id, size_px, style),
                            x,
                            y,
                            lb[k],
                        );
                    }
                },
                _ => {},
            }
        }
    }
}

/// Each counter of the one is the sum of those of the two others.
pub open spec fn is_sum(sum: DispatchStats, one: DispatchStats, other: DispatchStats) -> bool {
    &&& sum.fill_rect_executed == one.fill_rect_executed + other.fill_rect_executed
    &&& sum.draw_text_executed == one.draw_text_executed + other.draw_text_executed
    &&& sum.skipped_invalid == one.skipped_invalid + other.skipped_invalid
    &&& sum.skipped_no_op == one.skipped_no_op + other.skipped_no_op
}

/// Dispatching one list and then another does what dispatching their concatenation
/// may do: it leaves a picture and a cache that one call may leave, and that call
/// counts what the two calls count together.
pub proof fn law_two_calls_are_one(
    before: Picture,
    between: Picture,
    after: Picture,
    c0: &GlyphCache,
    c1: &GlyphCache,
    c2: &GlyphCache,
    a: Seq<OverlayCommand>,
    b: Seq<OverlayCommand>,
    sa: DispatchStats,
    sb: DispatchStats,
    sum: DispatchStats,
)
    requires
        dispatched(before, between, c0, c1, a, sa),
        dispatched(between, after, c1, c2, b, sb),
    ensures
        is_sum(sum, sa, sb) <==> dispatched(before, after, c0, c2, a + b, sum),
{
    let la = choose|l: Seq<Seq<Placement>>| #[trigger]
        layouts_of(c0, c1, a, l) && between == with_commands(before, c1, a, l, a.len() as int);
    let lb = choose|l: Seq<Seq<Placement>>| #[trigger]
        layouts_of(c1, c2, b, l) && after == with_commands(between, c2, b, l, b.len() as int);
    glyphs::lemma_extends_trans(c0, c1, c2);
    assert forall|i: int, j: int|
        0 <= i < a.len() && 0 <= j < la[i].len() implies c1.glyph(
        (#[trigger] la[i][j]).key,
    ) is Some by {}
    lemma_with_commands_stable(before, c1, c2, a, la, la, a.len() as int);
    lemma_lists_compose(before, c2, a, b, la, lb, b.len() as int);
    lemma_layouts_compose(c0, c1, c2, a, b, la, lb);
    lemma_counts_compose(c0, c1, a, b, a.len() as int);
    lemma_counts_compose(c0, c1, a, b, (a + b).len() as int);
    assert(layouts_of(c0, c2, a + b, la + lb));
    assert forall|key: GlyphKey| !wanted(a + b, key) implies #[trigger] c2.glyph(key) == c0.glyph(
        key,
    ) by {
        lemma_not_wanted(a, b, key);
        assert(c1.glyph(key) == c0.glyph(key));
    }
}

/// Two caches that `first` grew into came to one glyph for a key: it was cached
/// already; or FreeType gave both none; or it gave both the same, and never none.
pub open spec fn agree_on(
    first: &GlyphCache,
    one: &GlyphCache,
    other: &GlyphCache,
    key: GlyphKey,
) -> bool {
    ||| first.glyph(key) is Some
    ||| one.glyph(key) is None && other.glyph(key) is None
    ||| one.glyph(key) == other.glyph(key) && (first.font_path(
        key.font_id,
        key.style,
    ) matches Some(path) && !glyphs::no_image(path, key))
}

/// The two caches came to one glyph for every character that the commands draw.
pub open spec fn agree_for(
    first: &GlyphCache,
    one: &GlyphCache,
    other: &GlyphCache,
    cmds: Seq<OverlayCommand>,
) -> bool {
    forall|i: int, key: GlyphKey|
        0 <= i < cmds.len() && #[trigger] wants(cmds[i], key) ==> agree_on(first, one, other, key)
}

proof fn lemma_layout_determined(
    before: Picture,
    first: &GlyphCache,
    one: &GlyphCache,
    other: &GlyphCache,
    keys: Seq<GlyphKey>,
    x: i32,
    y: i32,
    la: Seq<Placement>,
    lb: Seq<Placement>,
    fg: Rgba,
)
    requires
        glyphs::laid_out(first, one, keys, x, y, la),
        glyphs::laid_out(first, other, keys, x, y, lb),
        forall|i: int| 0 <= i < keys.len() ==> agree_on(first, one, other, #[trigger] keys[i]),
    ensures
        la == lb,
        with_glyphs(before, one, la, fg, la.len() as int) == with_glyphs(
            before,
            other,
            la,
            fg,
            la.len() as int,
        ),
{
    let ga = choose|g: Seq<Option<GlyphBitmap>>| #[trigger]
        glyphs::looked_up(first, one, keys, g) && la == glyphs::placed(
            keys,
            g,
            x,
            y,
            keys.len() as int,
        );
    let gb = choose|g: Seq<Option<GlyphBitmap>>| #[trigger]
        glyphs::looked_up(first, other, keys, g) && lb == glyphs::placed(
            keys,
            g,
            x,
            y,
            keys.len() as int,
        );
    assert forall|i: int| 0 <= i < keys.len() implies ga[i] == gb[i] by {
        assert(agree_on(first, one, other, keys[i]));
    }
    assert(ga =~= gb);
    glyphs::lemma_placed_found(keys, ga, x, y, keys.len() as int);
    assert forall|j: int| 0 <= j < la.len() implies one.glyph((#[trigger] la[j]).key)
        == other.glyph(la[j].key) by {
        let m = choose|m: int|
            0 <= m < keys.len() && la[j].key == #[trigger] keys[m] && ga[m] is Some;
        assert(ga[m] == gb[m]);
    }
    lemma_with_glyphs_equal(before, one, other, la, fg, la.len() as int);
}

proof fn lemma_with_glyphs_equal(
    before: Picture,
    a: &GlyphCache,
    b: &GlyphCache,
    placements: Seq<Placement>,
    fg: Rgba,
    n: int,
)
    requires
        n <= placements.len(),
        forall|i: int|
            0 <= i < n ==> a.glyph((#[trigger] placements[i]).key) == b.glyph(placements[i].key),
    ensures
        with_glyphs(before, a, placements, fg, n) == with_glyphs(before, b, placements, fg, n),
    decreases n,
{
    if n > 0 {
        lemma_with_glyphs_equal(before, a, b, placements, fg, n - 1);
        assert(a.glyph(placements[n - 1].key) == b.glyph(placements[n - 1].key));
    }
}

proof fn lemma_painting_determined(
    before: Picture,
    first: &GlyphCache,
    one: &GlyphCache,
    other: &GlyphCache,
    cmds: Seq<OverlayCommand>,
    la: Seq<Seq<Placement>>,
    lb: Seq<Seq<Placement>>,
    n: int,
)
    requires
        one.extends(first),
        other.extends(first),
        layouts_of(first, one, cmds, la),
        layouts_of(first, other, cmds, lb),
        agree_for(first, one, other, cmds),
        0 <= n <= cmds.len(),
    ensures
        with_commands(before, one, cmds, la, n) == with_commands(before, other, cmds, lb, n),
    decreases n,
{
    if n > 0 {
        lemma_painting_determined(before, first, one, other, cmds, la, lb, n - 1);
        let prev = with_commands(before, one, cmds, la, n - 1);
        let (pa, pb) = (la[n - 1], lb[n - 1]);
        match cmds[n - 1] {
            OverlayCommand::FillRect { .. } => {},
            OverlayCommand::DrawText { x, y, text, font_id, size_px, style, color } => {
                assert(one.has_face(font_id, style) == first.has_face(font_id, style));
                assert(other.has_face(font_id, style) == first.has_face(font_id, style));
                if outcome(first, cmds[n - 1]) is Drawn {
                    let keys = glyphs::text_keys(text@, font_id, size_px, style);
                    assert forall|i: int| 0 <= i < keys.len() implies agree_on(
                        first,
                        one,
                        other,
                        #[trigger] keys[i],
                    ) by {
                        assert(keys.contains(keys[i]));
                        assert(wants(cmds[n - 1], keys[i]));
                    }
                    lemma_layout_determined(
                        prev,
                        first,
                        one,
                        other,
                        keys,
                        x,
                        y,
                        pa,
                        pb,
                        color,
                    );
                }
            },
        }
    }
}

/// Dispatching a list leaves one picture and counts one way, whichever call it
/// was, wherever FreeType gave the calls the same glyphs.
pub proof fn law_dispatch_determined(
    before: Picture,
    p: Picture,
    q: Picture,
    first: &GlyphCache,
    one: &GlyphCache,
    other: &GlyphCache,
    cmds: Seq<OverlayCommand>,
    sp: DispatchStats,
    sq: DispatchStats,
)
    requires
        dispatched(before, p, first, one, cmds, sp),
        dispatched(before, q, first, other, cmds, sq),
    ensures
        sp == sq,
        agree_for(first, one, other, cmds) ==> p == q,
{
    let la = choose|l: Seq<Seq<Placement>>| #[trigger]
        layouts_of(first, one, cmds, l) && p == with_commands(
            before,
            one,
            cmds,
            l,
            cmds.len() as int,
        );
    let lb = choose|l: Seq<Seq<Placement>>| #[trigger]
        layouts_of(first, other, cmds, l) && q == with_commands(
            before,
            other,
            cmds,
            l,
            cmds.len() as int,
        );
    if agree_for(first, one, other, cmds) {
        lemma_painting_determined(before, first, one, other, cmds, la, lb, cmds.len() as int);
    }
}

/// Dispatching two lists in turn leaves the planes that dispatching their
/// concatenation leaves, wherever FreeType gave the calls the same glyphs; and each
/// counter of the one call is the sum of those of the two.
pub proof fn law_lists_compose(
    before: Picture,
    between: Picture,
    after: Picture,
    at_once: Picture,
    c0: &GlyphCache,
    c1: &GlyphCache,
    c2: &GlyphCache,
    d: &GlyphCache,
    a: Seq<OverlayCommand>,
    b: Seq<OverlayCommand>,
    sa: DispatchStats,
    sb: DispatchStats,
    sum: DispatchStats,
)
    requires
        dispatched(before, between, c0, c1, a, sa),
        dispatched(between, after, c1, c2, b, sb),
        dispatched(before, at_once, c0, d, a + b, sum),
    ensures
        is_sum(sum, sa, sb),
        agree_for(c0, c2, d, a + b) ==> after == at_once,
{
    lemma_counts_compose(c0, c1, a, b, a.len() as int);
    lemma_counts_compose(c0, c1, a, b, (a + b).len() as int);
    law_two_calls_are_one(before, between, after, c0, c1, c2, a, b, sa, sb, sum);
    law_dispatch_determined(before, after, at_once, c0, c2, d, a + b, sum, sum);
}

/// Dispatching nothing leaves the planes and the glyphs as they are and counts
/// nothing.
pub proof fn law_empty_list(
    before: Picture,
    after: Picture,
    c0: &GlyphCache,
    c1: &GlyphCache,
    stats: DispatchStats,
)
    requires
        dispatched(before, after, c0, c1, Seq::empty(), stats),
    ensures
        after == before,
        c1.same_glyphs(c0),
        stats == (DispatchStats {
            fill_rect_executed: 0,
            draw_text_executed: 0,
            skipped_invalid: 0,
            skipped_no_op: 0,
        }),
{
}

/// Commands whose characters are all cached add no glyph to the cache.
pub proof fn law_cached_texts_add_nothing(
    before: Picture,
    after: Picture,
    c0: &GlyphCache,
    c1: &GlyphCache,
    cmds: Seq<OverlayCommand>,
    stats: DispatchStats,
)
    requires
        dispatched(before, after, c0, c1, cmds, stats),
        forall|key: GlyphKey| #[trigger] wanted(cmds, key) ==> c0.glyph(key) is Some,
    ensures
        c1.same_glyphs(c0),
{
    assert forall|key: GlyphKey| #[trigger] c1.glyph(key) == c0.glyph(key) by {
        if wanted(cmds, key) {
            assert(c0.glyph(key) is Some);
        }
    }
}

proof fn lemma_valid_list(cache: &GlyphCache, cmds: Seq<OverlayCommand>, n: int)
    requires
        0 <= n <= cmds.len(),
        failures_of(cache, cmds, n).len() == 0,
    ensures
        counts(cache, cmds, n).2 == 0,
    decreases n,
{
    if n > 0 {
        let errors = command_errors(cache, cmds[n - 1]);
        assert(failures_of(cache, cmds, n).len() == failures_of(cache, cmds, n - 1).len()
            + errors.len());
        lemma_valid_list(cache, cmds, n - 1);
    }
}

/// Of a list without structural problems, no command is skipped as invalid.
pub proof fn law_valid_list_has_no_invalid(
    before: Picture,
    after: Picture,
    c0: &GlyphCache,
    c1: &GlyphCache,
    cmds: Seq<OverlayCommand>,
    stats: DispatchStats,
)
    requires
        dispatched(before, after, c0, c1, cmds, stats),
        failures_of(c0, cmds, cmds.len() as int).len() == 0,
    ensures
        stats.skipped_invalid == 0,
{
    lemma_valid_list(c0, cmds, cmds.len() as int);
}

/// Every command is counted exactly once.
pub proof fn law_every_command_counted(
    before: Picture,
    after: Picture,
    c0: &GlyphCache,
    c1: &GlyphCache,
    cmds: Seq<OverlayCommand>,
    stats: DispatchStats,
)
    requires
        dispatched(before, after, c0, c1, cmds, stats),
    ensures
        stats.fill_rect_executed + stats.draw_text_executed + stats.skipped_invalid
            + stats.skipped_no_op == cmds.len(),
{
    lemma_counts_bound(c0, cmds, cmds.len() as int);
}

} // verus!
