//! What painting commands do to the pixels of a frame, and what the element that
//! paints says of them.

use crate::commands;
use crate::commands::{CommandError, DispatchStats, OverlayCommand, ValidationFailure};
use crate::floats;
use crate::glyphs;
use crate::glyphs::{FontId, FontStyle, GlyphBitmap, GlyphCache, GlyphKey, Placement};
use crate::layout::scoreboard::{LayoutSizes, ScoreboardState};
use crate::plugin;
use crate::plugin::{PlaneLayout, RenderStats};
use crate::renderer::color;
use crate::renderer::color::Rgba;
use crate::renderer::frame;
use crate::renderer::frame::{Picture, Rect};
use crate::renderer::glyph_blit;
use crate::renderer::pixel_laws;
use crate::renderer::pixel_laws::{blue, complete, cover, inside, luma, mixed, red, share_of};
use crate::text;
use vstd::prelude::*;

verus! {

/// The layouts of a list of one command, and what the command did.
proof fn lemma_one_command(
    before: Picture,
    after: Picture,
    c0: &GlyphCache,
    c1: &GlyphCache,
    cmd: OverlayCommand,
    stats: DispatchStats,
) -> (layouts: Seq<Seq<Placement>>)
    requires
        commands::dispatched(before, after, c0, c1, seq![cmd], stats),
    ensures
        commands::layouts_of(c0, c1, seq![cmd], layouts),
        after == commands::with_command(before, c1, cmd, layouts[0]),
        stats.fill_rect_executed == (if commands::outcome(c0, cmd) is Filled {
            1int
        } else {
            0
        }),
        stats.draw_text_executed == (if commands::outcome(c0, cmd) is Drawn {
            1int
        } else {
            0
        }),
        stats.skipped_invalid == (if commands::outcome(c0, cmd) is Invalid {
            1int
        } else {
            0
        }),
        stats.skipped_no_op == (if commands::outcome(c0, cmd) is NoOp {
            1int
        } else {
            0
        }),
{
    let cmds = seq![cmd];
    let layouts = choose|l: Seq<Seq<Placement>>| #[trigger]
        commands::layouts_of(c0, c1, cmds, l) && after == commands::with_commands(
            before,
            c1,
            cmds,
            l,
            cmds.len() as int,
        );
    reveal_with_fuel(commands::with_commands, 2);
    reveal_with_fuel(commands::counts, 2);
    assert(cmds[0] == cmd);
    layouts
}

/// A byte that nothing is mixed into stays.
proof fn lemma_nothing_mixed(before: u8, toward: u8)
    ensures
        mixed(before, before, toward, 0),
{
    assert(before * (255 - 0) == 255 * before) by (nonlinear_arith);
    assert(toward * 0 == 0);
}

/// A visible rectangle is painted at its place, in its size and its colour, and
/// counts as one rectangle. An invisible one changes no pixel and is skipped.
pub proof fn law_rectangle_command(
    before: Picture,
    after: Picture,
    c0: &GlyphCache,
    c1: &GlyphCache,
    x: i32,
    y: i32,
    width: i32,
    height: i32,
    paint: Rgba,
    stats: DispatchStats,
    px: int,
    py: int,
)
    requires
        complete(before),
        commands::dispatched(
            before,
            after,
            c0,
            c1,
            seq![OverlayCommand::FillRect { x, y, width, height, color: paint }],
            stats,
        ),
        0 <= px < before.width,
        0 <= py < before.height,
    ensures
        paint.a == 0 ==> after == before,
        x <= px < x + width && y <= py < y + height ==> {
            let c = color::ycbcr_of(paint.r, paint.g, paint.b);
            &&& mixed(luma(after, px, py), luma(before, px, py), c.y, paint.a as int)
            &&& mixed(blue(after, px, py), blue(before, px, py), c.cb, paint.a as int)
            &&& mixed(red(after, px, py), red(before, px, py), c.cr, paint.a as int)
        },
        !(x <= px < x + width && y <= py < y + height) ==> luma(after, px, py) == luma(
            before,
            px,
            py,
        ),
        stats.draw_text_executed == 0,
        stats.skipped_invalid == 0,
        paint.a > 0 ==> stats.fill_rect_executed == 1 && stats.skipped_no_op == 0,
        paint.a == 0 ==> stats.fill_rect_executed == 0 && stats.skipped_no_op == 1,
{
    let cmd = OverlayCommand::FillRect { x, y, width, height, color: paint };
    let layouts = lemma_one_command(before, after, c0, c1, cmd, stats);
    let rect = Rect { x, y, width, height };
    pixel_laws::law_fill_paints_its_pixels(
        before,
        rect,
        color::ycbcr_of(paint.r, paint.g, paint.b),
        paint.a,
        px,
        py,
    );
    assert(inside(rect, px, py) <==> x <= px < x + width && y <= py < y + height);
    if paint.a == 0 {
        let c = color::ycbcr_of(paint.r, paint.g, paint.b);
        lemma_nothing_mixed(luma(before, px, py), c.y);
        lemma_nothing_mixed(blue(before, px, py), c.cb);
        lemma_nothing_mixed(red(before, px, py), c.cr);
    }
}

/// Of two rectangles over a pixel, the second is seen where it is opaque.
pub proof fn law_later_rectangle_covers(
    before: Picture,
    after: Picture,
    c0: &GlyphCache,
    c1: &GlyphCache,
    under: OverlayCommand,
    x: i32,
    y: i32,
    width: i32,
    height: i32,
    paint: Rgba,
    stats: DispatchStats,
    px: int,
    py: int,
)
    requires
        complete(before),
        under is FillRect,
        paint.a == 255,
        commands::dispatched(
            before,
            after,
            c0,
            c1,
            seq![under, OverlayCommand::FillRect { x, y, width, height, color: paint }],
            stats,
        ),
        x <= px < x + width,
        y <= py < y + height,
        0 <= px < before.width,
        0 <= py < before.height,
    ensures
        luma(after, px, py) == color::ycbcr_of(paint.r, paint.g, paint.b).y,
        blue(after, px, py) == color::ycbcr_of(paint.r, paint.g, paint.b).cb,
        red(after, px, py) == color::ycbcr_of(paint.r, paint.g, paint.b).cr,
{
    let over = OverlayCommand::FillRect { x, y, width, height, color: paint };
    let cmds = seq![under, over];
    let layouts = choose|l: Seq<Seq<Placement>>| #[trigger]
        commands::layouts_of(c0, c1, cmds, l) && after == commands::with_commands(
            before,
            c1,
            cmds,
            l,
            cmds.len() as int,
        );
    reveal_with_fuel(commands::with_commands, 3);
    let mid = commands::with_command(before, c1, under, layouts[0]);
    assert(cmds[0] == under && cmds[1] == over);
    assert(after == commands::with_command(mid, c1, over, layouts[1]));
    assert(complete(mid));
    pixel_laws::law_fill_paints_its_pixels(
        mid,
        Rect { x, y, width, height },
        color::ycbcr_of(paint.r, paint.g, paint.b),
        255,
        px,
        py,
    );
}

/// A text that has no size, no weight or no characters changes no pixel and is
/// skipped. So is one in a font that is not registered, which counts as invalid.
pub proof fn law_texts_left_out(
    before: Picture,
    after: Picture,
    c0: &GlyphCache,
    c1: &GlyphCache,
    cmd: OverlayCommand,
    stats: DispatchStats,
)
    requires
        commands::dispatched(before, after, c0, c1, seq![cmd], stats),
        cmd is DrawText,
    ensures
        stats.fill_rect_executed == 0,
        cmd->size_px == 0 || cmd->text@.len() == 0 || cmd->DrawText_color.a == 0 ==> after == before
            && stats.skipped_no_op == 1 && stats.skipped_invalid == 0 && stats.draw_text_executed
            == 0,
        cmd->size_px > 0 && cmd->text@.len() > 0 && cmd->DrawText_color.a > 0 ==> {
            if c0.has_face(cmd->font_id, cmd->style) {
                stats.draw_text_executed == 1 && stats.skipped_no_op == 0 && stats.skipped_invalid
                    == 0
            } else {
                after == before && stats.skipped_invalid == 1 && stats.skipped_no_op == 0
                    && stats.draw_text_executed == 0
            }
        },
{
    let layouts = lemma_one_command(before, after, c0, c1, cmd, stats);
    if let OverlayCommand::DrawText { text, font_id, size_px, style, color, .. } = cmd {
        assert(c1.has_face(font_id, style) == c0.has_face(font_id, style));
    }
}

/// A colour was mixed into a pixel as far as a glyph covers it whose bitmap has its top
/// left corner at `(x, y)`, and into the pixel's block as far as the glyph covers the
/// four pixels of the block on the whole.
pub open spec fn shows_glyph(
    before: Picture,
    after: Picture,
    g: &GlyphBitmap,
    x: int,
    y: int,
    paint: Rgba,
    px: int,
    py: int,
) -> bool {
    let c = color::ycbcr_of(paint.r, paint.g, paint.b);
    let (bx, by) = (2 * (px / 2), 2 * (py / 2));
    let on_block = (cover(g, x, y, bx, by) + cover(g, x, y, bx + 1, by) + cover(
        g,
        x,
        y,
        bx,
        by + 1,
    ) + cover(g, x, y, bx + 1, by + 1)) / 4;
    &&& exists|s: int| #[trigger]
        share_of(s, cover(g, x, y, px, py), paint.a) && mixed(
            luma(after, px, py),
            luma(before, px, py),
            c.y,
            s,
        )
    &&& exists|s: int| #[trigger]
        share_of(s, on_block, paint.a) && mixed(
            blue(after, px, py),
            blue(before, px, py),
            c.cb,
            s,
        ) && mixed(red(after, px, py), red(before, px, py), c.cr, s)
}

proof fn lemma_shows_glyph(
    before: Picture,
    g: &GlyphBitmap,
    x: int,
    y: int,
    paint: Rgba,
    px: int,
    py: int,
)
    requires
        complete(before),
        g.wf(),
        0 < g.width <= i32::MAX,
        0 < g.height <= i32::MAX,
        0 <= px < before.width,
        0 <= py < before.height,
    ensures
        shows_glyph(before, glyph_blit::blitted(before, g, x, y, paint), g, x, y, paint, px, py),
{
    pixel_laws::law_glyph_paints_its_pixels(before, g, x, y, paint, px, py);
}

/// A character of a registered font is painted so that its pen is at the text's
/// anchor: its bitmap lies to the right of the anchor by the horizontal bearing and
/// above it by the vertical one. It mixes the text's colour into the pixels that the
/// bitmap covers.
pub proof fn law_character_command(
    before: Picture,
    after: Picture,
    c0: &GlyphCache,
    c1: &GlyphCache,
    cmd: OverlayCommand,
    g: GlyphBitmap,
    stats: DispatchStats,
    px: int,
    py: int,
)
    requires
        complete(before),
        commands::dispatched(before, after, c0, c1, seq![cmd], stats),
        cmd is DrawText,
        cmd->text@.len() == 1,
        cmd->size_px > 0,
        cmd->DrawText_color.a > 0,
        c0.has_face(cmd->font_id, cmd->style),
        c0.glyph(
            GlyphKey {
                font_id: cmd->font_id,
                style: cmd->style,
                size_px: cmd->size_px,
                codepoint: cmd->text@[0],
            },
        ) == Some(g),
        g.wf(),
        0 < g.width <= i32::MAX,
        0 < g.height <= i32::MAX,
        g.alpha@.len() > 0,
        i32::MIN <= cmd->DrawText_x + g.bearing_x <= i32::MAX,
        i32::MIN <= cmd->DrawText_y - g.bearing_y <= i32::MAX,
        0 <= px < before.width,
        0 <= py < before.height,
    ensures
        shows_glyph(
            before,
            after,
            &g,
            cmd->DrawText_x + g.bearing_x,
            cmd->DrawText_y - g.bearing_y,
            cmd->DrawText_color,
            px,
            py,
        ),
{
    let layouts = lemma_one_command(before, after, c0, c1, cmd, stats);
    if let OverlayCommand::DrawText { x, y, text, font_id, size_px, style, color } = cmd {
        let key = GlyphKey { font_id, style, size_px, codepoint: text@[0] };
        let keys = glyphs::text_keys(text@, font_id, size_px, style);
        assert(c1.has_face(font_id, style) == c0.has_face(font_id, style));
        assert(seq![cmd][0] == cmd);
        assert(commands::outcome(c0, cmd) is Drawn);
        let line = layouts[0];
        assert(glyphs::laid_out(c0, c1, keys, x, y, line));
        let found = choose|found: Seq<Option<GlyphBitmap>>| #[trigger]
            glyphs::looked_up(c0, c1, keys, found) && line == glyphs::placed(
                keys,
                found,
                x,
                y,
                keys.len() as int,
            );
        assert(keys[0] == key);
        assert(found[0] == Some(g));
        reveal_with_fuel(glyphs::placed, 2);
        reveal_with_fuel(glyphs::pen_after, 2);
        assert(line.len() == 1);
        assert(line[0] == (Placement {
            key,
            x: (x + g.bearing_x) as i32,
            y: (y - g.bearing_y) as i32,
        }));
        assert(c1.glyph(key) == Some(g));
        reveal_with_fuel(commands::with_glyphs, 2);
        assert(after == commands::with_glyphs(before, c1, line, color, 1));
        assert(commands::with_glyphs(before, c1, line, color, 0) == before);
        assert(after == glyph_blit::blitted(
            before,
            &g,
            x + g.bearing_x,
            y - g.bearing_y,
            color,
        ));
        lemma_shows_glyph(
            before,
            &g,
            x + g.bearing_x,
            y - g.bearing_y,
            color,
            px,
            py,
        );
    }
}

/// The bytes of a pixel lie in the buffer where the layout of the planes says: row
/// by row from the start of each plane, with both differences of a block side by
/// side.
pub proof fn law_pixels_in_buffer(p: PlaneLayout, data: Seq<u8>, px: int, py: int)
    requires
        p.fits(data.len() as int),
        complete(p.picture(data)),
        0 <= px < p.width,
        0 <= py < p.height,
    ensures
        p.picture(data).width == p.width,
        p.picture(data).height == p.height,
        luma(p.picture(data), px, py) == data[p.y_offset + py * p.y_stride + px],
        blue(p.picture(data), px, py) == data[p.uv_offset + (py / 2) * p.uv_stride + 2 * (px / 2)],
        red(p.picture(data), px, py) == data[p.uv_offset + (py / 2) * p.uv_stride + 2 * (px / 2)
            + 1],
{
    pixel_laws::lemma_places(p.picture(data), px, py);
}

/// The element lays the scoreboard out for the whole of its frame, with the regular
/// face under the first number and the bold one under the second.
pub proof fn law_element_layout(p: PlaneLayout, sizes: LayoutSizes)
    ensures
        ({
            let params = plugin::params_for(p, sizes);
            &&& params.frame_width == p.width
            &&& params.frame_height == p.height
            &&& params.regular_font == FontId(0)
            &&& params.bold_font == FontId(1)
            &&& params.sizes == sizes
        }),
{
}

/// The average is the number of whole microseconds that each frame took, were all to
/// take the same time.
pub proof fn law_average_cost(s: RenderStats)
    ensures
        s.frame_count > 0 ==> 1000 * (plugin::average_us(s) * s.frame_count) <= s.total_ns < 1000
            * ((plugin::average_us(s) + 1) * s.frame_count),
        s.frame_count == 0 ==> plugin::average_us(s) == 0,
{
    if s.frame_count > 0 {
        let (us, n) = (s.total_ns as int / 1000, s.frame_count as int);
        let a = us / n;
        assert(a * n <= us < (a + 1) * n) by (nonlinear_arith)
            requires
                n > 0,
                us >= 0,
                a == us / n,
        ;
    }
}

/// The failures of the first commands are those of each of them.
proof fn lemma_failures(
    cache: &GlyphCache,
    cmds: Seq<OverlayCommand>,
    n: int,
    f: ValidationFailure,
)
    requires
        0 <= n <= cmds.len() <= usize::MAX,
    ensures
        commands::failures_of(cache, cmds, n).contains(f) <==> f.index < n
            && commands::command_errors(cache, cmds[f.index as int]).contains(f.error),
    decreases n,
{
    if n > 0 {
        lemma_failures(cache, cmds, n - 1, f);
        let before = commands::failures_of(cache, cmds, n - 1);
        let errors = commands::command_errors(cache, cmds[n - 1]);
        let last = Seq::new(
            errors.len(),
            |j: int| ValidationFailure { index: (n - 1) as usize, error: errors[j] },
        );
        let all = before + last;
        assert(commands::failures_of(cache, cmds, n) == all);
        if before.contains(f) {
            let j = choose|j: int| 0 <= j < before.len() && before[j] == f;
            assert(all[j] == f);
        }
        if f.index == n - 1 && errors.contains(f.error) {
            let j = choose|j: int| 0 <= j < errors.len() && errors[j] == f.error;
            assert(last[j] == f);
            assert(all[before.len() + j] == f);
        }
        if all.contains(f) {
            let j = choose|j: int| 0 <= j < all.len() && all[j] == f;
            if j < before.len() {
                assert(before[j] == f);
            } else {
                assert(last[j - before.len()] == f);
                assert(errors[j - before.len()] == f.error);
            }
        }
    }
}

/// A list has exactly these structural problems: a rectangle of negative width or
/// height, a text of no size, and a text in a font that is not registered, each told
/// with its place in the list.
pub proof fn law_structural_problems(
    cache: &GlyphCache,
    cmds: Seq<OverlayCommand>,
    i: usize,
    font_id: FontId,
    style: FontStyle,
)
    requires
        cmds.len() <= usize::MAX,
        i < cmds.len(),
    ensures
        ({
            let cmd = cmds[i as int];
            let failures = commands::failures_of(cache, cmds, cmds.len() as int);
            &&& failures.contains(
                ValidationFailure { index: i, error: CommandError::NegativeDimensions },
            ) <==> (cmd matches OverlayCommand::FillRect { width, height, .. } && (width < 0
                || height < 0))
            &&& failures.contains(
                ValidationFailure { index: i, error: CommandError::ZeroFontSize },
            ) <==> (cmd matches OverlayCommand::DrawText { size_px, .. } && size_px == 0)
            &&& failures.contains(
                ValidationFailure { index: i, error: CommandError::UnknownFont { font_id, style } },
            ) <==> (cmd matches OverlayCommand::DrawText { font_id: f, style: s, .. } && f
                == font_id && s == style && !cache.has_face(font_id, style))
        }),
{
    let n = cmds.len() as int;
    let e1 = CommandError::NegativeDimensions;
    let e2 = CommandError::ZeroFontSize;
    let e3 = CommandError::UnknownFont { font_id, style };
    lemma_failures(cache, cmds, n, ValidationFailure { index: i, error: e1 });
    lemma_failures(cache, cmds, n, ValidationFailure { index: i, error: e2 });
    lemma_failures(cache, cmds, n, ValidationFailure { index: i, error: e3 });
    let errors = commands::command_errors(cache, cmds[i as int]);
    if let OverlayCommand::FillRect { width, height, .. } = cmds[i as int] {
        if width < 0 || height < 0 {
            assert(errors[0] == e1);
        }
    }
    if let OverlayCommand::DrawText { size_px, font_id: f, style: s, .. } = cmds[i as int] {
        if size_px == 0 {
            assert(errors[0] == e2);
        }
        if !cache.has_face(f, s) {
            assert(errors.last() == (CommandError::UnknownFont { font_id: f, style: s }));
        }
    }
}

/// A frame that is accepted is complete: its planes hold every row of it.
pub proof fn law_accepted_frames_are_complete(p: Picture)
    ensures
        frame::valid_layout(
            p.y.len() as int,
            p.uv.len() as int,
            p.y_stride,
            p.uv_stride,
            p.width,
            p.height,
        ) <==> complete(p),
{
}

/// A size is that of a text on a frame of the width: a length at a width of 1920,
/// scaled with the frame, within half a pixel and one part in two million, and at
/// least one.
pub open spec fn is_scaled(px: int, size: int, width: int) -> bool {
    &&& px >= 1
    &&& px > 1 && px < u32::MAX ==> 0x20_0000 * (1920 * px) <= 0x20_0001 * (size * width)
        + 0x20_0000 * 960
    &&& px < u32::MAX ==> 0x1f_ffff * (size * width) <= 0x20_0000 * (1920 * px) + 0x20_0000 * 960
}

proof fn lemma_scaled(size: int, width: int)
    requires
        1 <= size,
        1 <= width,
    ensures
        is_scaled(plugin::preload_px(size, width), size, width),
{
    floats::lemma_scaled_near(1000 * size, width);
    assert((1000 * size) * width == 1000 * (size * width)) by (nonlinear_arith);
    let (sw, px) = (size * width, floats::scaled_size(1000 * size, width));
    assert(sw >= 1) by (nonlinear_arith)
        requires
            sw == size * width,
            size >= 1,
            width >= 1,
    ;
    assert(0x20_0000 * (1_920_000 * px) == 1000 * (0x20_0000 * (1920 * px)));
}

/// The sizes that are rendered ahead are those of the three texts of a scoreboard, 18,
/// 22 and 32 pixels high on a frame that is 1920 wide, from the smallest on.
pub proof fn law_sizes_rendered_ahead(sizes: Seq<u32>, width: int, i: int)
    requires
        plugin::are_preload_sizes(sizes, width),
        1 <= width <= u32::MAX,
    ensures
        exists|k: int| 0 <= k < sizes.len() && is_scaled(#[trigger] sizes[k] as int, 18, width),
        exists|k: int| 0 <= k < sizes.len() && is_scaled(#[trigger] sizes[k] as int, 22, width),
        exists|k: int| 0 <= k < sizes.len() && is_scaled(#[trigger] sizes[k] as int, 32, width),
        0 <= i < sizes.len() ==> is_scaled(sizes[i] as int, 18, width) || is_scaled(
            sizes[i] as int,
            22,
            width,
        ) || is_scaled(sizes[i] as int, 32, width),
        0 <= i < sizes.len() - 1 ==> sizes[i] < sizes[i + 1],
{
    lemma_scaled(18, width);
    lemma_scaled(22, width);
    lemma_scaled(32, width);
    let (a, b, c) = (
        plugin::preload_px(18, width) as u32,
        plugin::preload_px(22, width) as u32,
        plugin::preload_px(32, width) as u32,
    );
    assert(plugin::is_preload_size(a, width) && plugin::is_preload_size(b, width)
        && plugin::is_preload_size(c, width));
    assert(sizes.contains(a) && sizes.contains(b) && sizes.contains(c));
    let k = choose|k: int| 0 <= k < sizes.len() && sizes[k] == a;
    assert(is_scaled(sizes[k] as int, 18, width));
    let k = choose|k: int| 0 <= k < sizes.len() && sizes[k] == b;
    assert(is_scaled(sizes[k] as int, 22, width));
    let k = choose|k: int| 0 <= k < sizes.len() && sizes[k] == c;
    assert(is_scaled(sizes[k] as int, 32, width));
    if 0 <= i < sizes.len() {
        assert(sizes.contains(sizes[i]));
        assert(plugin::is_preload_size(sizes[i], width));
    }
}

/// A face is looked for beside the other one, under the same name but for the ending:
/// DejaVu Sans in three places, then Liberation Sans.
pub proof fn law_faces_looked_for()
    ensures
        plugin::font_candidate(false, 0) == "/usr/share/fonts/truetype/dejavu/DejaVuSans"@
            + ".ttf"@,
        plugin::font_candidate(true, 0) == "/usr/share/fonts/truetype/dejavu/DejaVuSans"@
            + "-Bold.ttf"@,
        plugin::font_candidate(false, 1) == "/usr/share/fonts/TTF/DejaVuSans"@ + ".ttf"@,
        plugin::font_candidate(true, 1) == "/usr/share/fonts/TTF/DejaVuSans"@ + "-Bold.ttf"@,
        plugin::font_candidate(false, 2) == "/usr/share/fonts/dejavu/DejaVuSans"@ + ".ttf"@,
        plugin::font_candidate(true, 2) == "/usr/share/fonts/dejavu/DejaVuSans"@ + "-Bold.ttf"@,
        plugin::font_candidate(false, 3)
            == "/usr/share/fonts/truetype/liberation/LiberationSans"@ + "-Regular.ttf"@,
        plugin::font_candidate(true, 3)
            == "/usr/share/fonts/truetype/liberation/LiberationSans"@ + "-Bold.ttf"@,
{
    reveal_strlit(".ttf");
    reveal_strlit("-Bold.ttf");
    reveal_strlit("-Regular.ttf");
    reveal_strlit("/usr/share/fonts/truetype/dejavu/DejaVuSans");
    reveal_strlit("/usr/share/fonts/TTF/DejaVuSans");
    reveal_strlit("/usr/share/fonts/dejavu/DejaVuSans");
    reveal_strlit("/usr/share/fonts/truetype/liberation/LiberationSans");
    reveal_strlit("/usr/share/fonts/truetype/dejavu/DejaVuSans.ttf");
    reveal_strlit("/usr/share/fonts/truetype/dejavu/DejaVuSans-Bold.ttf");
    reveal_strlit("/usr/share/fonts/TTF/DejaVuSans.ttf");
    reveal_strlit("/usr/share/fonts/TTF/DejaVuSans-Bold.ttf");
    reveal_strlit("/usr/share/fonts/dejavu/DejaVuSans.ttf");
    reveal_strlit("/usr/share/fonts/dejavu/DejaVuSans-Bold.ttf");
    reveal_strlit("/usr/share/fonts/truetype/liberation/LiberationSans-Regular.ttf");
    reveal_strlit("/usr/share/fonts/truetype/liberation/LiberationSans-Bold.ttf");
    let a = "/usr/share/fonts/truetype/dejavu/DejaVuSans"@;
    let b = "/usr/share/fonts/TTF/DejaVuSans"@;
    let c = "/usr/share/fonts/dejavu/DejaVuSans"@;
    let d = "/usr/share/fonts/truetype/liberation/LiberationSans"@;
    assert(plugin::font_candidate(false, 0) =~= a + ".ttf"@);
    assert(plugin::font_candidate(true, 0) =~= a + "-Bold.ttf"@);
    assert(plugin::font_candidate(false, 1) =~= b + ".ttf"@);
    assert(plugin::font_candidate(true, 1) =~= b + "-Bold.ttf"@);
    assert(plugin::font_candidate(false, 2) =~= c + ".ttf"@);
    assert(plugin::font_candidate(true, 2) =~= c + "-Bold.ttf"@);
    assert(plugin::font_candidate(false, 3) =~= d + "-Regular.ttf"@);
    assert(plugin::font_candidate(true, 3) =~= d + "-Bold.ttf"@);
}

proof fn lemma_test_scores(s: ScoreboardState, frame: u64, at: Seq<char>)
    requires
        plugin::is_test_pattern(s, frame, at),
    ensures
        s.home_score == ((frame as int / 30) / 13) % 9,
        s.away_score == ((frame as int / 30) / 11) % 9,
{
}

/// After the eighth goal there are none again.
proof fn lemma_next_goal(n: int)
    requires
        n >= 0,
    ensures
        (n + 1) % 9 == if n % 9 == 8 {
            0int
        } else {
            n % 9 + 1
        },
{
}

/// One goal more after thirteen or eleven seconds.
proof fn lemma_goals(sec: int)
    requires
        sec >= 0,
    ensures
        ((sec + 13) / 13) % 9 == if (sec / 13) % 9 == 8 {
            0int
        } else {
            (sec / 13) % 9 + 1
        },
        ((sec + 11) / 11) % 9 == if (sec / 11) % 9 == 8 {
            0int
        } else {
            (sec / 11) % 9 + 1
        },
{
    let (h, a) = (sec / 13, sec / 11);
    assert((sec + 13) / 13 == h + 1);
    assert((sec + 11) / 11 == a + 1);
    lemma_next_goal(h);
    lemma_next_goal(a);
}

/// At thirty frames a second, the built-in scoreboard's home team scores every thirteen
/// seconds and its away team every eleven, up to eight goals. Both start from none.
pub proof fn law_test_scores(
    s: ScoreboardState,
    t: ScoreboardState,
    u: ScoreboardState,
    frame: u64,
    at: Seq<char>,
)
    requires
        frame + 390 <= u64::MAX,
        plugin::is_test_pattern(s, frame, at),
        plugin::is_test_pattern(t, (frame + 390) as u64, at),
        plugin::is_test_pattern(u, (frame + 330) as u64, at),
    ensures
        t.home_score == if s.home_score == 8 {
            0int
        } else {
            s.home_score + 1
        },
        u.away_score == if s.away_score == 8 {
            0int
        } else {
            s.away_score + 1
        },
        frame < 390 ==> s.home_score == 0,
        frame < 330 ==> s.away_score == 0,
{
    lemma_test_scores(s, frame, at);
    lemma_test_scores(t, (frame + 390) as u64, at);
    lemma_test_scores(u, (frame + 330) as u64, at);
    lemma_goals(frame as int / 30);
    assert((frame + 390) / 30 == frame as int / 30 + 13);
    assert((frame + 330) / 30 == frame as int / 30 + 11);
}

/// The built-in scoreboard's clock shows the minutes and seconds that passed, and the
/// time of day it was given. It stands still in the first two of every twenty seconds.
pub proof fn law_test_clock(s: ScoreboardState, frame: u64, at: Seq<char>)
    requires
        plugin::is_test_pattern(s, frame, at),
    ensures
        s.clock_text@ == at,
        s.game_clock_text@.len() == 5,
        s.game_clock_text@[2] == ':',
        60 * text::number_of(s.game_clock_text@.take(2)) + text::number_of(
            s.game_clock_text@.skip(3),
        ) == (frame as int / 30) % 6000,
        text::number_of(s.game_clock_text@.skip(3)) < 60,
        s.clock_stopped <==> frame % 600 < 60,
{
    let sec = frame as int / 30;
    let (m, r) = (((sec / 60) % 100) as nat, (sec % 60) as nat);
    text::law_padded_decimal_reads_back(m);
    text::law_padded_decimal_reads_back(r);
    assert(s.game_clock_text@.take(2) =~= text::decimal2(m));
    assert(s.game_clock_text@.skip(3) =~= text::decimal2(r));
    assert(sec % 6000 == 60 * ((sec / 60) % 100) + sec % 60) by (nonlinear_arith)
        requires
            sec >= 0,
    ;
}

/// A penalty of the built-in scoreboard counts down: for the home team's third player
/// from sixty, and for the away team's goalkeeper from ninety.
pub proof fn law_test_penalties(s: ScoreboardState, frame: u64, at: Seq<char>)
    requires
        plugin::is_test_pattern(s, frame, at),
    ensures
        s.home_penalty_timers@.len() == if frame % 240 < 60 {
            1int
        } else {
            0
        },
        s.away_penalty_timers@.len() == if frame % 360 < 90 {
            1int
        } else {
            0
        },
        frame % 240 < 60 ==> s.home_penalty_timers@[0].player_number == 3
            && !s.home_penalty_timers@[0].is_goalkeeper && s.home_penalty_timers@[0].secs_remaining
            + frame % 240 == 60,
        frame % 360 < 90 ==> s.away_penalty_timers@[0].player_number == 1
            && s.away_penalty_timers@[0].is_goalkeeper && s.away_penalty_timers@[0].secs_remaining
            + frame % 360 == 90,
{
}

/// Everything from the blank to the tilde is rendered ahead, or could not be rendered.
pub proof fn law_printable_characters_ahead(
    cache: &GlyphCache,
    font_id: FontId,
    size_px: u32,
    style: FontStyle,
    c: char,
)
    requires
        cache.preloaded(font_id, size_px, style),
        ' ' <= c <= '~',
    ensures
        cache.settled(GlyphKey { font_id, size_px, style, codepoint: c }),
{
    assert(cache.settled(glyphs::key_for(font_id, size_px, style, c)));
}

} // verus!
