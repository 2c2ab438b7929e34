//! What holds of every scoreboard.

use vstd::prelude::*;
use crate::commands;
use crate::commands::{Draw, OverlayCommand};
use crate::floats;
use crate::glyphs::{FontStyle, GlyphCache};
use crate::renderer::color::Rgba;
use super::scoreboard;
use super::scoreboard::{Board, LayoutParams, PenaltyTile, ScoreboardState, Tile};

verus! {

/// The sizes leave every text a size and every tile room for its two rows.
pub open spec fn legible(params: &LayoutParams) -> bool {
    let w = params.frame_width as int;
    let z = params.sizes;
    let t = scoreboard::tile_geometry(true, params);
    &&& scoreboard::scaled(z.font_pill as int, w) > 0
    &&& scoreboard::scaled(z.font_sb_name as int, w) > 0
    &&& scoreboard::scaled(z.font_sb_score as int, w) > 0
    &&& scoreboard::scaled(z.font_sb_phase as int, w) > 0
    &&& scoreboard::scaled(z.font_sb_state as int, w) > 0
    &&& scoreboard::scaled(z.font_penalty_num as int, w) > 0
    &&& scoreboard::scaled(z.font_penalty_time as int, w) > 0
    &&& scoreboard::scaled(z.font_penalty_reason as int, w) > 0
    &&& t.row1_h <= t.tile_h
}

/// A drawing step that validation accepts, given faces for the two fonts.
spec fn sound(d: Draw, params: &LayoutParams) -> bool {
    match d {
        Draw::Fill { width, height, .. } => width >= 0 && height >= 0,
        Draw::Text { font_id, size_px, style, .. } => size_px > 0 && (if style == FontStyle::Bold {
            font_id == params.bold_font
        } else {
            font_id == params.regular_font
        }),
    }
}

spec fn all_sound(s: Seq<Draw>, params: &LayoutParams) -> bool {
    forall|i: int| 0 <= i < s.len() ==> sound(#[trigger] s[i], params)
}

proof fn lemma_sound_concat(a: Seq<Draw>, b: Seq<Draw>, params: &LayoutParams)
    requires
        all_sound(a, params),
        all_sound(b, params),
    ensures
        all_sound(a + b, params),
{
    let s = a + b;
    assert forall|i: int| 0 <= i < s.len() implies sound(#[trigger] s[i], params) by {
        if i < a.len() {
            assert(s[i] == a[i]);
        } else {
            assert(s[i] == b[i - a.len()]);
        }
    }
}

pub(super) proof fn lemma_scaled_nonneg(milli: int, w: int)
    requires
        milli >= 0,
        w >= 0,
    ensures
        0 <= scoreboard::scaled(milli, w) <= i32::MAX,
{
    reveal(scoreboard::scaled);
    floats::lemma_scaled_not_negative(milli, w);
}

/// No length of the scoreboard is negative.
pub(super) open spec fn nonneg(b: Board) -> bool {
    &&& b.row_h >= 0
    &&& b.row_gap >= 0
    &&& b.text_pad >= 0
    &&& b.team_color_w >= 0
    &&& b.gk_strip_w >= 0
    &&& b.gk_strip_gap >= 0
    &&& b.font_name >= 0
    &&& b.font_score >= 0
    &&& b.font_phase >= 0
    &&& b.font_state >= 0
    &&& b.clock_box_w >= 0
    &&& b.score_box_w >= 0
    &&& b.home_gk_extra >= 0
    &&& b.away_gk_extra >= 0
    &&& b.name_w >= 0
}

pub(super) proof fn lemma_board_nonneg(state: &ScoreboardState, params: &LayoutParams)
    ensures
        nonneg(scoreboard::board(state, params)),
{
    let w = params.frame_width as int;
    let z = params.sizes;
    lemma_scaled_nonneg(16_000, w);
    lemma_scaled_nonneg(10_000, w);
    lemma_scaled_nonneg(2_000, w);
    lemma_scaled_nonneg(18_000, w);
    lemma_scaled_nonneg(4_000, w);
    lemma_scaled_nonneg(120_000, w);
    lemma_scaled_nonneg(140_000, w);
    lemma_scaled_nonneg(64_000, w);
    lemma_scaled_nonneg(z.sb_row_h as int, w);
    lemma_scaled_nonneg(z.font_sb_name as int, w);
    lemma_scaled_nonneg(z.font_sb_score as int, w);
    lemma_scaled_nonneg(z.font_sb_phase as int, w);
    lemma_scaled_nonneg(z.font_sb_state as int, w);
    let font_name = scoreboard::scaled(z.font_sb_name as int, w);
    scoreboard::lemma_width_not_negative(state.home_team_name@.len() as int, font_name, 70);
    scoreboard::lemma_width_not_negative(state.away_team_name@.len() as int, font_name, 70);
}

proof fn lemma_row2_backings_sound(
    b: Board,
    state: &ScoreboardState,
    home: Rgba,
    away: Rgba,
    params: &LayoutParams,
)
    requires
        nonneg(b),
    ensures
        all_sound(scoreboard::row2_backings(b, state, home, away), params),
{
}

proof fn lemma_row2_texts_sound(
    b: Board,
    state: &ScoreboardState,
    home: Rgba,
    away: Rgba,
    params: &LayoutParams,
)
    requires
        b.font_name > 0,
        b.font_score > 0,
    ensures
        all_sound(scoreboard::row2_texts(b, state, home, away, params), params),
{
}

proof fn lemma_label_sound(
    b: Board,
    text: Seq<char>,
    text_w: int,
    row_y: int,
    bold: bool,
    font: int,
    params: &LayoutParams,
)
    requires
        nonneg(b),
        text_w >= 0,
        font > 0,
    ensures
        all_sound(scoreboard::centred_label(b, text, text_w, row_y, bold, font, params), params),
{
}

proof fn lemma_center_sound(state: &ScoreboardState, params: &LayoutParams)
    requires
        legible(params),
    ensures
        all_sound(scoreboard::center_board(state, params), params),
{
    let b = scoreboard::board(state, params);
    let home = scoreboard::or_color(state.home_team_color, scoreboard::default_home());
    let away = scoreboard::or_color(state.away_team_color, scoreboard::default_away());
    let phase_w = scoreboard::width(state.phase_text@.len() as int, b.font_phase, 70);
    let state_w = scoreboard::width(state.state_text@.len() as int, b.font_state, 62);
    lemma_board_nonneg(state, params);
    scoreboard::lemma_width_not_negative(state.phase_text@.len() as int, b.font_phase, 70);
    scoreboard::lemma_width_not_negative(state.state_text@.len() as int, b.font_state, 62);
    let s1 = scoreboard::row2_backings(b, state, home, away);
    let s2 = scoreboard::centred_label(
        b,
        state.phase_text@,
        phase_w,
        b.sb_y,
        true,
        b.font_phase,
        params,
    );
    let s3 = scoreboard::row1_side(
        b,
        scoreboard::shots_of(state, true),
        state.home_message_budget,
        home,
        b.name1_x() + b.name_w / 2,
        params,
    );
    let s4 = scoreboard::row1_side(
        b,
        scoreboard::shots_of(state, false),
        state.away_message_budget,
        away,
        b.name2_x() + b.name_w / 2,
        params,
    );
    let s5 = scoreboard::row2_texts(b, state, home, away, params);
    let s6 = scoreboard::centred_label(
        b,
        state.state_text@,
        state_w,
        b.row3_y(),
        false,
        b.font_state,
        params,
    );
    lemma_row2_backings_sound(b, state, home, away, params);
    lemma_label_sound(b, state.phase_text@, phase_w, b.sb_y, true, b.font_phase, params);
    lemma_row1_side_sound(
        b,
        scoreboard::shots_of(state, true),
        state.home_message_budget,
        home,
        b.name1_x() + b.name_w / 2,
        params,
    );
    lemma_row1_side_sound(
        b,
        scoreboard::shots_of(state, false),
        state.away_message_budget,
        away,
        b.name2_x() + b.name_w / 2,
        params,
    );
    lemma_row2_texts_sound(b, state, home, away, params);
    lemma_label_sound(b, state.state_text@, state_w, b.row3_y(), false, b.font_state, params);
    lemma_sound_concat(s1, s2, params);
    lemma_sound_concat(s1 + s2, s3, params);
    lemma_sound_concat(s1 + s2 + s3, s4, params);
    lemma_sound_concat(s1 + s2 + s3 + s4, s5, params);
    lemma_sound_concat(s1 + s2 + s3 + s4 + s5, s6, params);
}

proof fn lemma_row1_side_sound(
    b: Board,
    shots: Option<(u32, u32, u32)>,
    budget: u32,
    color: Rgba,
    center_x: int,
    params: &LayoutParams,
)
    requires
        b.font_phase > 0,
        b.text_pad >= 0,
        b.row_h >= 0,
    ensures
        all_sound(scoreboard::row1_side(b, shots, budget, color, center_x, params), params),
{
    lemma_scaled_nonneg(4_000, params.frame_width as int);
    let label = crate::text::decimal(budget as nat);
    scoreboard::lemma_width_not_negative(label.len() as int, b.font_phase, 65);
}

proof fn lemma_tile_sound(
    t: Tile,
    tile: &PenaltyTile,
    y: int,
    color: Rgba,
    params: &LayoutParams,
)
    requires
        t.tile_w >= 0,
        t.num_box_w >= 0,
        0 <= t.row1_h <= t.tile_h,
        t.font_num > 0,
        t.font_time > 0,
        t.font_reason > 0,
    ensures
        all_sound(scoreboard::tile_at(t, tile, y, color, params), params),
{
    let w = params.frame_width as int;
    lemma_scaled_nonneg(4_000, w);
    lemma_scaled_nonneg(6_000, w);
    let font = scoreboard::badge_font(t.font_reason);
    scoreboard::lemma_width_not_negative("GK"@.len() as int, font, 62);
}

proof fn lemma_stack_sound(
    t: Tile,
    tiles: Seq<PenaltyTile>,
    y: int,
    color: Rgba,
    params: &LayoutParams,
)
    requires
        t.tile_w >= 0,
        t.num_box_w >= 0,
        0 <= t.row1_h <= t.tile_h,
        t.font_num > 0,
        t.font_time > 0,
        t.font_reason > 0,
    ensures
        all_sound(scoreboard::tile_stack(t, tiles, y, color, params), params),
    decreases tiles.len(),
{
    if tiles.len() > 0 && y >= t.top_limit {
        lemma_tile_sound(t, &tiles[0], y, color, params);
        lemma_stack_sound(t, tiles.drop_first(), y - (t.tile_h + t.gap), color, params);
        lemma_sound_concat(
            scoreboard::tile_at(t, &tiles[0], y, color, params),
            scoreboard::tile_stack(t, tiles.drop_first(), y - (t.tile_h + t.gap), color, params),
            params,
        );
    }
}

pub(super) proof fn lemma_tile_geometry(left: bool, params: &LayoutParams)
    ensures
        ({
            let t = scoreboard::tile_geometry(left, params);
            &&& t.tile_w >= 0
            &&& t.tile_h >= 0
            &&& t.gap >= 0
            &&& t.num_box_w >= 0
            &&& t.row1_h >= 0
            &&& t.top_limit >= 0
        }),
{
    let w = params.frame_width as int;
    let z = params.sizes;
    lemma_scaled_nonneg(z.penalty_tile_w as int, w);
    lemma_scaled_nonneg(z.penalty_tile_h as int, w);
    lemma_scaled_nonneg(16_000, w);
    lemma_scaled_nonneg(4_000, w);
    lemma_scaled_nonneg(6_000, w);
    lemma_scaled_nonneg(120_000, w);
    lemma_scaled_nonneg(z.font_penalty_num as int, w);
    scoreboard::lemma_width_not_negative(2, scoreboard::scaled(z.font_penalty_num as int, w), 65);
}

proof fn lemma_overlay_sound(state: &ScoreboardState, params: &LayoutParams)
    requires
        legible(params),
    ensures
        all_sound(scoreboard::overlay_drawn(state, params), params),
{
    let w = params.frame_width as int;
    let font = scoreboard::scaled(params.sizes.font_pill as int, w);
    let home = scoreboard::or_color(state.home_team_color, scoreboard::default_home());
    let away = scoreboard::or_color(state.away_team_color, scoreboard::default_away());
    let field_w = scoreboard::width(state.field_name@.len() as int, font, 62);
    let clock_w = scoreboard::width(state.clock_text@.len() as int, font, 65);
    lemma_scaled_nonneg(12_000, w);
    lemma_scaled_nonneg(6_000, w);
    scoreboard::lemma_width_not_negative(state.field_name@.len() as int, font, 62);
    scoreboard::lemma_width_not_negative(state.clock_text@.len() as int, font, 65);
    let s1 = scoreboard::pill(state.field_name@, field_w, true, params);
    let s2 = scoreboard::pill(state.clock_text@, clock_w, false, params);
    let s3 = scoreboard::center_board(state, params);
    let s4 = scoreboard::penalty_column(true, state.home_penalty_timers@, home, params);
    let s5 = scoreboard::penalty_column(false, state.away_penalty_timers@, away, params);
    assert(all_sound(s1, params));
    assert(all_sound(s2, params));
    lemma_center_sound(state, params);
    lemma_tile_geometry(true, params);
    lemma_tile_geometry(false, params);
    let l = scoreboard::tile_geometry(true, params);
    let r = scoreboard::tile_geometry(false, params);
    lemma_stack_sound(l, state.home_penalty_timers@, l.first_y, home, params);
    lemma_stack_sound(r, state.away_penalty_timers@, r.first_y, away, params);
    lemma_sound_concat(s1, s2, params);
    lemma_sound_concat(s1 + s2, s3, params);
    lemma_sound_concat(s1 + s2 + s3, s4, params);
    lemma_sound_concat(s1 + s2 + s3 + s4, s5, params);
}

proof fn lemma_sound_validates(
    cache: &GlyphCache,
    cmds: Seq<OverlayCommand>,
    params: &LayoutParams,
    n: int,
)
    requires
        0 <= n <= cmds.len(),
        all_sound(commands::drawn(cmds), params),
        cache.has_face(params.regular_font, FontStyle::Regular),
        cache.has_face(params.bold_font, FontStyle::Bold),
    ensures
        commands::failures_of(cache, cmds, n).len() == 0,
    decreases n,
{
    if n > 0 {
        lemma_sound_validates(cache, cmds, params, n - 1);
        assert(sound(commands::drawn(cmds)[n - 1], params));
        assert(commands::command_errors(cache, cmds[n - 1]).len() == 0);
    }
}

/// With legible sizes and faces for the two fonts, every scoreboard validates
/// clean.
pub proof fn law_scoreboard_validates(
    cache: &GlyphCache,
    state: &ScoreboardState,
    params: &LayoutParams,
    cmds: Seq<OverlayCommand>,
)
    requires
        legible(params),
        cache.has_face(params.regular_font, FontStyle::Regular),
        cache.has_face(params.bold_font, FontStyle::Bold),
        commands::drawn(cmds) == scoreboard::overlay_drawn(state, params),
    ensures
        commands::failures_of(cache, cmds, cmds.len() as int).len() == 0,
{
    lemma_overlay_sound(state, params);
    lemma_sound_validates(cache, cmds, params, cmds.len() as int);
}

/// The tuned sizes are legible on frames from 44 pixels wide. On narrower ones the
/// smallest text has no size left.
pub proof fn law_default_sizes_legible(params: &LayoutParams)
    requires
        params.sizes == scoreboard::default_sizes(),
        params.frame_width >= 44,
    ensures
        legible(params),
{
    reveal(scoreboard::scaled);
    let w = params.frame_width as int;
    floats::lemma_scaled_near(4_000, w);
    floats::lemma_scaled_near(22_000, w);
    floats::lemma_scaled_near(35_000, w);
    floats::lemma_scaled_near(37_000, w);
    floats::lemma_scaled_near(44_000, w);
    floats::lemma_scaled_near(48_000, w);
    floats::lemma_scaled_near(110_000, w);
}

/// A pill stands at a place of a list, and its text right after it.
pub open spec fn pill_at(d: Seq<Draw>, at: int, text: Seq<char>) -> bool {
    &&& d[at] matches Draw::Fill { color, .. }
    &&& color == scoreboard::pill_bg()
    &&& d[at + 1] matches Draw::Text { text: t, .. }
    &&& t == text
}

/// How many commands a pill takes: one for the pill and one for its text.
pub open spec fn pill_len(text: Seq<char>) -> int {
    if text.len() > 0 {
        2
    } else {
        0
    }
}

/// The pills of the field name and of the clock come first, each before its text,
/// and each exactly where its text is not empty. The scoreboard follows them, so
/// that no list is empty.
pub proof fn law_pills_iff_text(state: &ScoreboardState, params: &LayoutParams)
    ensures
        ({
            let d = scoreboard::overlay_drawn(state, params);
            let (field, clock) = (state.field_name@, state.clock_text@);
            &&& d.len() > pill_len(field) + pill_len(clock)
            &&& field.len() > 0 <==> pill_at(d, 0, field)
            &&& clock.len() > 0 <==> pill_at(d, pill_len(field), clock)
        }),
{
    let d = scoreboard::overlay_drawn(state, params);
    let (field, clock) = (state.field_name@, state.clock_text@);
    let at = pill_len(field) + pill_len(clock);
    let b = scoreboard::board(state, params);
    let home = scoreboard::or_color(state.home_team_color, scoreboard::default_home());
    let away = scoreboard::or_color(state.away_team_color, scoreboard::default_away());
    let backings = scoreboard::row2_backings(b, state, home, away);
    assert(backings.len() >= 7 && backings[0] is Fill && backings[1] is Fill);
    let board = scoreboard::center_board(state, params);
    assert(board.len() >= 7 && board[0] == backings[0] && board[1] == backings[1]);
    assert(d[at] == board[0] && d[at + 1] == board[1]);
}

/// With the tuned sizes and faces for the two fonts, every scoreboard on a frame
/// from 44 pixels wide validates clean and is not empty; its rectangles have no
/// negative side, and its texts have a size and one of the two fonts.
pub proof fn law_default_scoreboard_clean(
    cache: &GlyphCache,
    state: &ScoreboardState,
    params: &LayoutParams,
    cmds: Seq<OverlayCommand>,
)
    requires
        params.sizes == scoreboard::default_sizes(),
        params.frame_width >= 44,
        cache.has_face(params.regular_font, FontStyle::Regular),
        cache.has_face(params.bold_font, FontStyle::Bold),
        commands::drawn(cmds) == scoreboard::overlay_drawn(state, params),
    ensures
        commands::failures_of(cache, cmds, cmds.len() as int) == Seq::<
            commands::ValidationFailure,
        >::empty(),
        cmds.len() > 0,
        forall|i: int|
            0 <= i < cmds.len() ==> match #[trigger] cmds[i] {
                OverlayCommand::FillRect { width, height, .. } => width >= 0 && height >= 0,
                OverlayCommand::DrawText { size_px, font_id, style, .. } => size_px > 0 && (
                style == FontStyle::Regular && font_id == params.regular_font || style
                    == FontStyle::Bold && font_id == params.bold_font),
            },
{
    law_default_sizes_legible(params);
    law_scoreboard_validates(cache, state, params, cmds);
    law_pills_iff_text(state, params);
    lemma_overlay_sound(state, params);
    assert forall|i: int| 0 <= i < cmds.len() implies match #[trigger] cmds[i] {
        OverlayCommand::FillRect { width, height, .. } => width >= 0 && height >= 0,
        OverlayCommand::DrawText { size_px, font_id, style, .. } => size_px > 0 && (style
            == FontStyle::Regular && font_id == params.regular_font || style == FontStyle::Bold
            && font_id == params.bold_font),
    } by {
        assert(sound(commands::drawn(cmds)[i], params));
        assert(commands::drawn(cmds)[i] == cmds[i]@);
    }
    assert(commands::drawn(cmds).len() == cmds.len());
}

/// The centre scoreboard keeps inside the side margins however long the names
/// are, as long as the frame leaves room for the narrowest name cells.
pub proof fn law_scoreboard_fits_width(state: &ScoreboardState, params: &LayoutParams)
    requires
        ({
            let b = scoreboard::board(state, params);
            let w = params.frame_width as int;
            scoreboard::half(w - 2 * scoreboard::scaled(16_000, w) - 4 * scoreboard::scaled(10_000, w))
                - 2 * b.team_color_w - b.home_gk_extra - b.away_gk_extra - 2 * b.score_box_w
                - b.clock_box_w >= scoreboard::scaled(120_000, w)
        }),
    ensures
        ({
            let b = scoreboard::board(state, params);
            let w = params.frame_width as int;
            &&& b.total_w <= w - 2 * scoreboard::scaled(16_000, w)
            &&& scoreboard::scaled(16_000, w) <= b.sb_x
            &&& b.sb_x + b.total_w <= w - scoreboard::scaled(16_000, w)
        }),
{
    lemma_board_nonneg(state, params);
    let w = params.frame_width as int;
    lemma_scaled_nonneg(16_000, w);
    lemma_scaled_nonneg(10_000, w);
    lemma_scaled_nonneg(120_000, w);
}

/// The cells of row 2 lie side by side, from the left edge of the scoreboard
/// to its right edge.
pub proof fn law_row2_cells_abut(state: &ScoreboardState, params: &LayoutParams)
    ensures
        ({
            let b = scoreboard::board(state, params);
            &&& b.name1_x() == b.sb_x + b.team_color_w + b.home_gk_extra
            &&& b.score1_x() == b.name1_x() + b.name_w
            &&& b.clock_x() == b.score1_x() + b.score_box_w
            &&& b.score2_x() == b.clock_x() + b.clock_box_w
            &&& b.name2_x() == b.score2_x() + b.score_box_w
            &&& b.name2_x() + b.name_w + b.away_gk_extra + b.team_color_w == b.sb_x + b.total_w
        }),
{
}

spec fn fill_below(d: Draw, limit: int) -> bool {
    d matches Draw::Fill { y, .. } ==> y >= limit
}

proof fn lemma_stack_below(
    t: Tile,
    tiles: Seq<PenaltyTile>,
    y: int,
    color: Rgba,
    params: &LayoutParams,
    i: int,
)
    requires
        0 <= t.top_limit <= i32::MAX,
        t.row1_h >= 0,
        0 <= i < scoreboard::tile_stack(t, tiles, y, color, params).len(),
    ensures
        fill_below(scoreboard::tile_stack(t, tiles, y, color, params)[i], t.top_limit),
    decreases tiles.len(),
{
    lemma_scaled_nonneg(3_000, params.frame_width as int);
    let one = scoreboard::tile_at(t, &tiles[0], y, color, params);
    assert(forall|j: int|
        0 <= j < one.len() ==> fill_below(#[trigger] one[j], t.top_limit));
    if i >= one.len() {
        lemma_stack_below(
            t,
            tiles.drop_first(),
            y - (t.tile_h + t.gap),
            color,
            params,
            i - one.len(),
        );
    }
}

/// However many robots are penalised, no tile rises above the limit line near
/// the top of the frame.
pub proof fn law_penalty_column_capped(
    left: bool,
    tiles: Seq<PenaltyTile>,
    color: Rgba,
    params: &LayoutParams,
    i: int,
)
    requires
        0 <= i < scoreboard::penalty_column(left, tiles, color, params).len(),
        scoreboard::tile_geometry(left, params).top_limit <= i32::MAX,
    ensures
        scoreboard::penalty_column(left, tiles, color, params)[i] matches Draw::Fill { y, .. } ==> y
            >= scoreboard::tile_geometry(left, params).top_limit,
{
    lemma_tile_geometry(left, params);
    let t = scoreboard::tile_geometry(left, params);
    lemma_stack_below(t, tiles, t.first_y, color, params, i);
}

/// A pill comes before the text that stands on it, and holds the start of it.
pub proof fn law_pill_before_text(
    text: Seq<char>,
    text_w: int,
    left: bool,
    params: &LayoutParams,
)
    requires
        text.len() > 0,
        0 <= text_w <= u32::MAX,
        params.wf(),
    ensures
        scoreboard::pill(text, text_w, left, params).len() == 2,
        scoreboard::pill(text, text_w, left, params)[0] matches Draw::Fill { x: fx, color, .. }
            && color == scoreboard::pill_bg() && (scoreboard::pill(
            text,
            text_w,
            left,
            params,
        )[1] matches Draw::Text { x: tx, text: t, .. } && t == text && fx <= tx),
{
    lemma_scaled_nonneg(12_000, params.frame_width as int);
}

} // verus!
