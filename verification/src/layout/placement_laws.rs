//! Where the scoreboard puts what it shows, read off the finished list.

use super::scoreboard;
use super::scoreboard::{Board, LayoutParams, PenaltyTile, ScoreboardState, Tile};
use crate::commands::Draw;
use crate::floats;
use crate::glyphs::FontStyle;
use crate::renderer::color;
use crate::renderer::color::Rgba;
use crate::text;
use vstd::prelude::*;

verus! {

// How laws speak of a list.

/// Nothing was moved to the end of the coordinates' range.
pub open spec fn unclamped(d: Draw) -> bool {
    match d {
        Draw::Fill { x, y, width, height, .. } => {
            &&& i32::MIN < x < i32::MAX
            &&& i32::MIN < y < i32::MAX
            &&& i32::MIN < width < i32::MAX
            &&& i32::MIN < height < i32::MAX
        },
        Draw::Text { x, y, .. } => i32::MIN < x < i32::MAX && i32::MIN < y < i32::MAX,
    }
}

/// Every coordinate of a list is where the layout wants it.
pub open spec fn in_range(d: Seq<Draw>) -> bool {
    forall|i: int| 0 <= i < d.len() ==> unclamped(#[trigger] d[i])
}

/// A rectangle of the list.
pub open spec fn cell(d: Seq<Draw>, left: int, right: int, y: int, height: int, color: Rgba) -> bool {
    d.contains(Draw::Fill { x: left, y, width: right - left, height, color })
}

/// A text of the list in the bold font.
pub open spec fn bold_text(
    d: Seq<Draw>,
    params: &LayoutParams,
    x: int,
    y: int,
    text: Seq<char>,
    size_px: int,
    color: Rgba,
) -> bool {
    d.contains(
        Draw::Text {
            x,
            y,
            text,
            font_id: params.bold_font,
            size_px,
            style: FontStyle::Bold,
            color,
        },
    )
}

/// A text of the list in the regular font.
pub open spec fn regular_text(
    d: Seq<Draw>,
    params: &LayoutParams,
    x: int,
    y: int,
    text: Seq<char>,
    size_px: int,
    color: Rgba,
) -> bool {
    d.contains(
        Draw::Text {
            x,
            y,
            text,
            font_id: params.regular_font,
            size_px,
            style: FontStyle::Regular,
            color,
        },
    )
}

/// A span from `x` is centred between two edges, to the pixel.
pub open spec fn centred(x: int, span: int, left: int, right: int) -> bool {
    -1 <= (2 * x + span) - (left + right) <= 1
}

/// A baseline for a text in the middle of a row, with a lift.
pub open spec fn in_row(baseline: int, row_y: int, row_h: int, font: int, lift: int) -> bool {
    0 <= (row_h + font) - 2 * (baseline + lift - row_y) <= 1
}

pub open spec fn light_grey() -> Rgba {
    Rgba { r: 217, g: 217, b: 217, a: 255 }
}

pub open spec fn near_black() -> Rgba {
    Rgba { r: 12, g: 12, b: 12, a: 255 }
}

/// The home team's colour, red where it has none.
pub open spec fn home_color(state: &ScoreboardState) -> Rgba {
    match state.home_team_color {
        Some(c) => c,
        None => Rgba { r: 217, g: 25, b: 25, a: 255 },
    }
}

/// The away team's colour, blue where it has none.
pub open spec fn away_color(state: &ScoreboardState) -> Rgba {
    match state.away_team_color {
        Some(c) => c,
        None => Rgba { r: 25, g: 50, b: 217, a: 255 },
    }
}

/// Black on a bright colour, white on a dark one.
pub open spec fn readable_on(c: Rgba) -> Rgba {
    if color::is_bright(c) {
        Rgba { r: 0, g: 0, b: 0, a: 255 }
    } else {
        Rgba { r: 255, g: 255, b: 255, a: 255 }
    }
}

/// The edges of the cells of the middle row, from left to right: the home name
/// from `name1` to `score1`, the home score up to `clock`, the clock up to
/// `score2`, the away score up to `name2`, the away name up to `end`.
pub struct Middle {
    pub y: int,
    pub height: int,
    pub name1: int,
    pub score1: int,
    pub clock: int,
    pub score2: int,
    pub name2: int,
    pub end: int,
}

/// The cells are in the list, side by side and of one height, each score cell in
/// its team's colour, and the row is the middle one of three above the margin.
pub open spec fn has_middle(d: Seq<Draw>, m: Middle, state: &ScoreboardState, params: &LayoutParams) -> bool {
    let w = params.frame_width as int;
    &&& m.name1 <= m.score1 <= m.clock <= m.score2 <= m.name2 <= m.end
    &&& cell(d, m.name1, m.score1, m.y, m.height, light_grey())
    &&& cell(d, m.score1, m.clock, m.y, m.height, home_color(state))
    &&& cell(d, m.clock, m.score2, m.y, m.height, light_grey())
    &&& cell(d, m.score2, m.name2, m.y, m.height, away_color(state))
    &&& cell(d, m.name2, m.end, m.y, m.height, light_grey())
    &&& m.end - m.name2 == m.score1 - m.name1
    &&& m.name2 - m.score2 == m.clock - m.score1
    &&& m.height == scoreboard::scaled(params.sizes.sb_row_h as int, w)
    &&& m.y + 2 * m.height + scoreboard::scaled(2_000, w) == params.frame_height
        - scoreboard::scaled(16_000, w)
}

// Reading the list.

proof fn lemma_contains_sum(a: Seq<Draw>, b: Seq<Draw>, x: Draw)
    ensures
        a.contains(x) || b.contains(x) ==> (a + b).contains(x),
{
    if a.contains(x) {
        let i = choose|i: int| 0 <= i < a.len() && a[i] == x;
        assert((a + b)[i] == x);
    }
    if b.contains(x) {
        let i = choose|i: int| 0 <= i < b.len() && b[i] == x;
        assert((a + b)[a.len() + i] == x);
    }
}

/// The parts of the centre scoreboard.
spec fn part(state: &ScoreboardState, params: &LayoutParams, k: int) -> Seq<Draw> {
    let b = scoreboard::board(state, params);
    let home = scoreboard::or_color(state.home_team_color, scoreboard::default_home());
    let away = scoreboard::or_color(state.away_team_color, scoreboard::default_away());
    if k == 0 {
        scoreboard::row2_backings(b, state, home, away)
    } else if k == 1 {
        scoreboard::centred_label(
            b,
            state.phase_text@,
            scoreboard::width(state.phase_text@.len() as int, b.font_phase, 70),
            b.sb_y,
            true,
            b.font_phase,
            params,
        )
    } else if k == 2 {
        scoreboard::row1_side(
            b,
            scoreboard::shots_of(state, true),
            state.home_message_budget,
            home,
            b.name1_x() + b.name_w / 2,
            params,
        )
    } else if k == 3 {
        scoreboard::row1_side(
            b,
            scoreboard::shots_of(state, false),
            state.away_message_budget,
            away,
            b.name2_x() + b.name_w / 2,
            params,
        )
    } else if k == 4 {
        scoreboard::row2_texts(b, state, home, away, params)
    } else {
        scoreboard::centred_label(
            b,
            state.state_text@,
            scoreboard::width(state.state_text@.len() as int, b.font_state, 62),
            b.row3_y(),
            false,
            b.font_state,
            params,
        )
    }
}

/// What a part of the scoreboard draws, the whole list draws.
proof fn lemma_part(state: &ScoreboardState, params: &LayoutParams, k: int, x: Draw)
    requires
        0 <= k < 6,
        part(state, params, k).contains(x),
    ensures
        scoreboard::overlay_drawn(state, params).contains(x),
{
    let p0 = part(state, params, 0);
    let p1 = part(state, params, 1);
    let p2 = part(state, params, 2);
    let p3 = part(state, params, 3);
    let p4 = part(state, params, 4);
    let p5 = part(state, params, 5);
    lemma_contains_sum(p0, p1, x);
    lemma_contains_sum(p0 + p1, p2, x);
    lemma_contains_sum(p0 + p1 + p2, p3, x);
    lemma_contains_sum(p0 + p1 + p2 + p3, p4, x);
    lemma_contains_sum(p0 + p1 + p2 + p3 + p4, p5, x);
    let board = scoreboard::center_board(state, params);
    assert(board == p0 + p1 + p2 + p3 + p4 + p5);
    lemma_side(state, params, 2, x);
}

/// The parts of the whole list.
spec fn side(state: &ScoreboardState, params: &LayoutParams, k: int) -> Seq<Draw> {
    let font = scoreboard::scaled(params.sizes.font_pill as int, params.frame_width as int);
    if k == 0 {
        scoreboard::pill(
            state.field_name@,
            scoreboard::width(state.field_name@.len() as int, font, 62),
            true,
            params,
        )
    } else if k == 1 {
        scoreboard::pill(
            state.clock_text@,
            scoreboard::width(state.clock_text@.len() as int, font, 65),
            false,
            params,
        )
    } else if k == 2 {
        scoreboard::center_board(state, params)
    } else if k == 3 {
        scoreboard::penalty_column(
            true,
            state.home_penalty_timers@,
            scoreboard::or_color(state.home_team_color, scoreboard::default_home()),
            params,
        )
    } else {
        scoreboard::penalty_column(
            false,
            state.away_penalty_timers@,
            scoreboard::or_color(state.away_team_color, scoreboard::default_away()),
            params,
        )
    }
}

proof fn lemma_side(state: &ScoreboardState, params: &LayoutParams, k: int, x: Draw)
    requires
        0 <= k < 5,
        side(state, params, k).contains(x),
    ensures
        scoreboard::overlay_drawn(state, params).contains(x),
{
    let s0 = side(state, params, 0);
    let s1 = side(state, params, 1);
    let s2 = side(state, params, 2);
    let s3 = side(state, params, 3);
    let s4 = side(state, params, 4);
    lemma_contains_sum(s0, s1, x);
    lemma_contains_sum(s0 + s1, s2, x);
    lemma_contains_sum(s0 + s1 + s2, s3, x);
    lemma_contains_sum(s0 + s1 + s2 + s3, s4, x);
    assert(scoreboard::overlay_drawn(state, params) == s0 + s1 + s2 + s3 + s4);
}

/// A drawn item of a list in range is where it was meant to be.
proof fn lemma_unclamped(d: Seq<Draw>, x: Draw)
    requires
        in_range(d),
        d.contains(x),
    ensures
        unclamped(x),
{
}

proof fn lemma_fill(d: Seq<Draw>, x: int, y: int, w: int, h: int, color: Rgba)
    requires
        in_range(d),
        d.contains(scoreboard::fill(x, y, w, h, color)),
    ensures
        cell(d, x, x + w, y, h, color),
{
    lemma_unclamped(d, scoreboard::fill(x, y, w, h, color));
}

proof fn lemma_text(
    d: Seq<Draw>,
    x: int,
    y: int,
    text: Seq<char>,
    bold: bool,
    size_px: int,
    color: Rgba,
    params: &LayoutParams,
)
    requires
        in_range(d),
        d.contains(scoreboard::text_in(x, y, text, bold, size_px, color, params)),
    ensures
        bold ==> bold_text(d, params, x, y, text, size_px, color),
        !bold ==> regular_text(d, params, x, y, text, size_px, color),
{
    lemma_unclamped(d, scoreboard::text_in(x, y, text, bold, size_px, color, params));
}

spec fn middle_of(b: Board) -> Middle {
    Middle {
        y: b.row2_y(),
        height: b.row_h,
        name1: b.name1_x(),
        score1: b.score1_x(),
        clock: b.clock_x(),
        score2: b.score2_x(),
        name2: b.name2_x(),
        end: b.name2_x() + b.name_w,
    }
}

/// The backings of row 2 that are always there.
proof fn lemma_backing(state: &ScoreboardState, params: &LayoutParams)
    ensures
        ({
            let d = scoreboard::overlay_drawn(state, params);
            let b = scoreboard::board(state, params);
            let (home, away) = (home_color(state), away_color(state));
            let y = b.row2_y();
            let right = b.sb_x + b.total_w;
            &&& d.contains(scoreboard::fill(b.sb_x, y, b.team_color_w, b.row_h, home))
            &&& d.contains(scoreboard::fill(b.name1_x(), y, b.name_w, b.row_h, light_grey()))
            &&& d.contains(scoreboard::fill(b.score1_x(), y, b.score_box_w, b.row_h, home))
            &&& d.contains(scoreboard::fill(b.clock_x(), y, b.clock_box_w, b.row_h, light_grey()))
            &&& d.contains(scoreboard::fill(b.score2_x(), y, b.score_box_w, b.row_h, away))
            &&& d.contains(scoreboard::fill(b.name2_x(), y, b.name_w, b.row_h, light_grey()))
            &&& d.contains(
                scoreboard::fill(right - b.team_color_w, y, b.team_color_w, b.row_h, away),
            )
        }),
{
    let b = scoreboard::board(state, params);
    let p = part(state, params, 0);
    let k: int = if state.home_team_goalkeeper_color is Some && b.home_gk_extra > 0 {
        2
    } else {
        1
    };
    let n = p.len() - 1;
    assert(p.contains(p[0]));
    assert(p.contains(p[k]));
    assert(p.contains(p[k + 1]));
    assert(p.contains(p[k + 2]));
    assert(p.contains(p[k + 3]));
    assert(p.contains(p[k + 4]));
    assert(p.contains(p[n]));
    lemma_part(state, params, 0, p[0]);
    lemma_part(state, params, 0, p[k]);
    lemma_part(state, params, 0, p[k + 1]);
    lemma_part(state, params, 0, p[k + 2]);
    lemma_part(state, params, 0, p[k + 3]);
    lemma_part(state, params, 0, p[k + 4]);
    lemma_part(state, params, 0, p[n]);
}

proof fn lemma_middle(state: &ScoreboardState, params: &LayoutParams) -> (m: Middle)
    requires
        in_range(scoreboard::overlay_drawn(state, params)),
    ensures
        m == middle_of(scoreboard::board(state, params)),
        has_middle(scoreboard::overlay_drawn(state, params), m, state, params),
{
    let d = scoreboard::overlay_drawn(state, params);
    let b = scoreboard::board(state, params);
    let y = b.row2_y();
    super::scoreboard_laws::lemma_board_nonneg(state, params);
    lemma_backing(state, params);
    lemma_fill(d, b.name1_x(), y, b.name_w, b.row_h, light_grey());
    lemma_fill(d, b.score1_x(), y, b.score_box_w, b.row_h, home_color(state));
    lemma_fill(d, b.clock_x(), y, b.clock_box_w, b.row_h, light_grey());
    lemma_fill(d, b.score2_x(), y, b.score_box_w, b.row_h, away_color(state));
    lemma_fill(d, b.name2_x(), y, b.name_w, b.row_h, light_grey());
    middle_of(b)
}

// Laws.

/// Each team's score stands in the middle of the cell of that team's colour, the
/// home team's to the left of the clock and the away team's to the right of it.
pub proof fn law_scores_in_their_cells(state: &ScoreboardState, params: &LayoutParams) -> (m: Middle)
    requires
        in_range(scoreboard::overlay_drawn(state, params)),
    ensures
        has_middle(scoreboard::overlay_drawn(state, params), m, state, params),
        ({
            let d = scoreboard::overlay_drawn(state, params);
            let w = params.frame_width as int;
            let font = scoreboard::scaled(params.sizes.font_sb_score as int, w);
            let home = text::decimal(state.home_score as nat);
            let away = text::decimal(state.away_score as nat);
            exists|x1: int, x2: int, y: int| #[trigger]
                bold_text(d, params, x1, y, home, font, readable_on(home_color(state)))
                    && #[trigger] bold_text(
                    d,
                    params,
                    x2,
                    y,
                    away,
                    font,
                    readable_on(away_color(state)),
                ) && centred(
                    x1,
                    scoreboard::width(home.len() as int, font, 65),
                    m.score1,
                    m.clock,
                ) && centred(
                    x2,
                    scoreboard::width(away.len() as int, font, 65),
                    m.score2,
                    m.name2,
                ) && in_row(y, m.y, m.height, font, scoreboard::scaled(2_000, w))
        }),
{
    let m = lemma_middle(state, params);
    let d = scoreboard::overlay_drawn(state, params);
    let b = scoreboard::board(state, params);
    let p = part(state, params, 4);
    let font = b.font_score;
    let home = text::decimal(state.home_score as nat);
    let away = text::decimal(state.away_score as nat);
    let n = p.len() - 2;
    assert(p.contains(p[1]));
    assert(p.contains(p[n]));
    lemma_part(state, params, 4, p[1]);
    lemma_part(state, params, 4, p[n]);
    let y = b.baseline(b.row2_y(), font);
    let x1 = b.score1_x() + scoreboard::half(
        b.score_box_w - scoreboard::width(home.len() as int, font, 65),
    );
    let x2 = b.score2_x() + scoreboard::half(
        b.score_box_w - scoreboard::width(away.len() as int, font, 65),
    );
    lemma_text(d, x1, y, home, true, font, readable_on(home_color(state)), params);
    lemma_text(d, x2, y, away, true, font, readable_on(away_color(state)), params);
    m
}

/// A running clock is as dark as the other texts, a stopped one is dimmed.
pub open spec fn clock_ink(state: &ScoreboardState) -> Rgba {
    if state.clock_stopped {
        Rgba { r: 102, g: 102, b: 102, a: 255 }
    } else {
        near_black()
    }
}

/// What a name cell leaves for the name between its pads.
pub open spec fn room_for_name(m: Middle, pad: int) -> int {
    if m.score1 - m.name1 > 2 * pad {
        m.score1 - m.name1 - 2 * pad
    } else {
        0
    }
}

/// The home team's name ends a pad in front of its score cell and the away team's
/// begins a pad behind its own. The clock, where there is one, stands in the
/// middle between the scores, dimmed while it is stopped. A name that is too long
/// for its cell is cut.
pub proof fn law_names_and_clock_in_their_cells(
    state: &ScoreboardState,
    params: &LayoutParams,
) -> (m: Middle)
    requires
        in_range(scoreboard::overlay_drawn(state, params)),
    ensures
        has_middle(scoreboard::overlay_drawn(state, params), m, state, params),
        ({
            let d = scoreboard::overlay_drawn(state, params);
            let w = params.frame_width as int;
            let pad = scoreboard::scaled(18_000, w);
            let font = scoreboard::scaled(params.sizes.font_sb_name as int, w);
            let room = room_for_name(m, pad);
            let home = scoreboard::truncated(state.home_team_name@, room, font);
            let away = scoreboard::truncated(state.away_team_name@, room, font);
            exists|x: int, y: int| #[trigger]
                bold_text(d, params, x, y, home, font, near_black()) && x + scoreboard::width(
                    home.len() as int,
                    font,
                    70,
                ) + pad == m.score1 && bold_text(
                    d,
                    params,
                    m.name2 + pad,
                    y,
                    away,
                    font,
                    near_black(),
                ) && in_row(y, m.y, m.height, font, scoreboard::scaled(2_000, w))
        }),
        state.game_clock_text@.len() > 0 ==> ({
            let d = scoreboard::overlay_drawn(state, params);
            let w = params.frame_width as int;
            let font = scoreboard::scaled(params.sizes.font_sb_score as int, w);
            let clock = state.game_clock_text@;
            let ink = clock_ink(state);
            exists|x: int, y: int| #[trigger]
                bold_text(d, params, x, y, clock, font, ink) && centred(
                    x,
                    scoreboard::width(clock.len() as int, font, 65),
                    m.clock,
                    m.score2,
                ) && in_row(y, m.y, m.height, font, scoreboard::scaled(2_000, w))
        }),
{
    let m = lemma_middle(state, params);
    let d = scoreboard::overlay_drawn(state, params);
    let b = scoreboard::board(state, params);
    let p = part(state, params, 4);
    let w = params.frame_width as int;
    let pad = scoreboard::scaled(18_000, w);
    let font = scoreboard::scaled(params.sizes.font_sb_name as int, w);
    let lift = scoreboard::scaled(2_000, w);
    assert(b.font_name == font && b.text_pad == pad && b.nudge == lift);
    let room = room_for_name(m, pad);
    assert(room == scoreboard::max_int(b.name_w - 2 * b.text_pad, 0));
    let home = scoreboard::truncated(state.home_team_name@, room, font);
    let away = scoreboard::truncated(state.away_team_name@, room, font);
    let n = p.len() - 1;
    assert(p.contains(p[0]));
    assert(p.contains(p[n]));
    lemma_part(state, params, 4, p[0]);
    lemma_part(state, params, 4, p[n]);
    let y = b.baseline(b.row2_y(), font);
    let x = b.score1_x() - scoreboard::width(home.len() as int, font, 70) - b.text_pad;
    lemma_text(d, x, y, home, true, font, near_black(), params);
    lemma_text(d, b.name2_x() + b.text_pad, y, away, true, font, near_black(), params);
    assert(in_row(y, m.y, m.height, font, lift));
    assert(bold_text(d, params, x, y, home, font, near_black()));
    assert(bold_text(d, params, m.name2 + pad, y, away, font, near_black()));
    if state.game_clock_text@.len() > 0 {
        lemma_clock(state, params);
    }
    m
}

proof fn lemma_clock(state: &ScoreboardState, params: &LayoutParams)
    requires
        in_range(scoreboard::overlay_drawn(state, params)),
        state.game_clock_text@.len() > 0,
    ensures
        ({
            let d = scoreboard::overlay_drawn(state, params);
            let m = middle_of(scoreboard::board(state, params));
            let w = params.frame_width as int;
            let font = scoreboard::scaled(params.sizes.font_sb_score as int, w);
            let clock = state.game_clock_text@;
            let ink = clock_ink(state);
            exists|x: int, y: int| #[trigger]
                bold_text(d, params, x, y, clock, font, ink) && centred(
                    x,
                    scoreboard::width(clock.len() as int, font, 65),
                    m.clock,
                    m.score2,
                ) && in_row(y, m.y, m.height, font, scoreboard::scaled(2_000, w))
        }),
{
    let d = scoreboard::overlay_drawn(state, params);
    let b = scoreboard::board(state, params);
    let m = middle_of(b);
    let p = part(state, params, 4);
    let w = params.frame_width as int;
    let font = scoreboard::scaled(params.sizes.font_sb_score as int, w);
    let lift = scoreboard::scaled(2_000, w);
    assert(b.font_score == font && b.nudge == lift);
    let clock = state.game_clock_text@;
    let ink = clock_ink(state);
    let x = b.clock_x() + scoreboard::half(
        b.clock_box_w - scoreboard::width(clock.len() as int, font, 65),
    );
    let y = b.baseline(b.row2_y(), font);
    assert(p.contains(p[2]));
    assert(p[2] == scoreboard::text_in(x, y, clock, true, font, ink, params));
    lemma_part(state, params, 4, p[2]);
    lemma_text(d, x, y, clock, true, font, ink, params);
    assert(in_row(y, m.y, m.height, font, lift));
    assert(centred(x, scoreboard::width(clock.len() as int, font, 65), m.clock, m.score2));
    assert(bold_text(d, params, x, y, clock, font, ink));
}

/// The score cells are wide enough for two digits and the clock's for six, each
/// with a pad on both sides, and the name cells for the longer name as far as the
/// frame leaves room for it.
pub proof fn law_cells_hold_their_texts(state: &ScoreboardState, params: &LayoutParams) -> (m: Middle)
    requires
        in_range(scoreboard::overlay_drawn(state, params)),
    ensures
        has_middle(scoreboard::overlay_drawn(state, params), m, state, params),
        ({
            let w = params.frame_width as int;
            let pad = scoreboard::scaled(18_000, w);
            let score = scoreboard::scaled(params.sizes.font_sb_score as int, w);
            let name = scoreboard::scaled(params.sizes.font_sb_name as int, w);
            let home_w = scoreboard::width(state.home_team_name@.len() as int, name, 70) + 2 * pad;
            let away_w = scoreboard::width(state.away_team_name@.len() as int, name, 70) + 2 * pad;
            let cell_w = m.score1 - m.name1;
            &&& m.clock - m.score1 >= scoreboard::width(2, score, 65) + 2 * pad
            &&& m.score2 - m.clock >= scoreboard::width(6, score, 65) + 2 * pad
            &&& m.clock - m.score1 >= scoreboard::scaled(64_000, w)
            &&& m.score2 - m.clock >= scoreboard::scaled(140_000, w)
            &&& cell_w <= home_w || cell_w <= away_w
            &&& home_w <= scoreboard::scaled(120_000, w) ==> cell_w >= home_w
            &&& away_w <= scoreboard::scaled(120_000, w) ==> cell_w >= away_w
        }),
{
    lemma_middle(state, params)
}

proof fn lemma_home_strip(state: &ScoreboardState, params: &LayoutParams)
    requires
        scoreboard::board(state, params).home_gk_extra > 0,
    ensures
        ({
            let b = scoreboard::board(state, params);
            state.home_team_goalkeeper_color matches Some(g) && scoreboard::overlay_drawn(
                state,
                params,
            ).contains(
                scoreboard::fill(
                    b.sb_x + b.team_color_w + b.gk_strip_gap,
                    b.row2_y(),
                    b.gk_strip_w,
                    b.row_h,
                    g,
                ),
            )
        }),
{
    let p = part(state, params, 0);
    assert(p.contains(p[1]));
    lemma_part(state, params, 0, p[1]);
}

proof fn lemma_away_strip(state: &ScoreboardState, params: &LayoutParams)
    requires
        scoreboard::board(state, params).away_gk_extra > 0,
    ensures
        ({
            let b = scoreboard::board(state, params);
            state.away_team_goalkeeper_color matches Some(g) && scoreboard::overlay_drawn(
                state,
                params,
            ).contains(
                scoreboard::fill(
                    b.sb_x + b.total_w - b.team_color_w - b.gk_strip_gap - b.gk_strip_w,
                    b.row2_y(),
                    b.gk_strip_w,
                    b.row_h,
                    g,
                ),
            )
        }),
{
    let p = part(state, params, 0);
    let n = p.len() - 2;
    assert(p.contains(p[n]));
    lemma_part(state, params, 0, p[n]);
}

/// At both ends of the middle row stands a block of the team's colour, and beside
/// it a strip of the goalkeeper's, where that is known and is another colour. The
/// row is centred in the frame.
#[verifier::rlimit(60)]
pub proof fn law_team_colours_at_the_ends(
    state: &ScoreboardState,
    params: &LayoutParams,
) -> (r: (Middle, int, int))
    requires
        in_range(scoreboard::overlay_drawn(state, params)),
    ensures
        has_middle(scoreboard::overlay_drawn(state, params), r.0, state, params),
        ({
            let d = scoreboard::overlay_drawn(state, params);
            let (m, left, right) = r;
            let w = params.frame_width as int;
            let block = scoreboard::scaled(16_000, w);
            let strip = scoreboard::scaled(10_000, w);
            let gap = scoreboard::scaled(4_000, w);
            &&& -1 <= left + right - w <= 1
            &&& cell(d, left, left + block, m.y, m.height, home_color(state))
            &&& cell(d, right - block, right, m.y, m.height, away_color(state))
            &&& match state.home_team_goalkeeper_color {
                Some(g) if state.home_team_color != Some(g) => {
                    &&& left + block + gap + strip == m.name1
                    &&& strip > 0 ==> cell(d, m.name1 - strip, m.name1, m.y, m.height, g)
                },
                _ => left + block == m.name1,
            }
            &&& match state.away_team_goalkeeper_color {
                Some(g) if state.away_team_color != Some(g) => {
                    &&& right - block - gap - strip == m.end
                    &&& strip > 0 ==> cell(d, m.end, m.end + strip, m.y, m.height, g)
                },
                _ => right - block == m.end,
            }
        }),
{
    let m = lemma_middle(state, params);
    let d = scoreboard::overlay_drawn(state, params);
    let b = scoreboard::board(state, params);
    let y = b.row2_y();
    let right = b.sb_x + b.total_w;
    super::scoreboard_laws::lemma_board_nonneg(state, params);
    lemma_backing(state, params);
    lemma_fill(d, b.sb_x, y, b.team_color_w, b.row_h, home_color(state));
    lemma_fill(d, right - b.team_color_w, y, b.team_color_w, b.row_h, away_color(state));
    if b.home_gk_extra > 0 {
        lemma_home_strip(state, params);
        let g = state.home_team_goalkeeper_color->0;
        lemma_fill(d, b.sb_x + b.team_color_w + b.gk_strip_gap, y, b.gk_strip_w, b.row_h, g);
    }
    if b.away_gk_extra > 0 {
        lemma_away_strip(state, params);
        let g = state.away_team_goalkeeper_color->0;
        lemma_fill(
            d,
            right - b.team_color_w - b.gk_strip_gap - b.gk_strip_w,
            y,
            b.gk_strip_w,
            b.row_h,
            g,
        );
    }
    (m, b.sb_x, right)
}

/// A text in the middle of a light backing, which holds it with a pad on both
/// sides and is centred in the frame.
pub open spec fn labelled(
    d: Seq<Draw>,
    params: &LayoutParams,
    text: Seq<char>,
    text_w: int,
    row_y: int,
    bold: bool,
    font: int,
) -> bool {
    let w = params.frame_width as int;
    let pad = scoreboard::scaled(18_000, w);
    let row_h = scoreboard::scaled(params.sizes.sb_row_h as int, w);
    exists|x: int, y: int|
        #![trigger cell(d, x, x + text_w + 2 * pad, row_y, row_h, light_grey()), in_row(y, row_y, row_h, font, scoreboard::scaled(2_000, w))]
        cell(d, x, x + text_w + 2 * pad, row_y, row_h, light_grey()) && in_row(
            y,
            row_y,
            row_h,
            font,
            scoreboard::scaled(2_000, w),
        ) && -2 <= (2 * x + text_w + 2 * pad) - w <= 2 && if bold {
            bold_text(d, params, x + pad, y, text, font, near_black())
        } else {
            regular_text(d, params, x + pad, y, text, font, near_black())
        }
}

proof fn lemma_labelled(
    state: &ScoreboardState,
    params: &LayoutParams,
    k: int,
    text: Seq<char>,
    text_w: int,
    row_y: int,
    bold: bool,
    font: int,
)
    requires
        in_range(scoreboard::overlay_drawn(state, params)),
        0 <= k < 6,
        text.len() > 0,
        part(state, params, k) == scoreboard::centred_label(
            scoreboard::board(state, params),
            text,
            text_w,
            row_y,
            bold,
            font,
            params,
        ),
    ensures
        labelled(
            scoreboard::overlay_drawn(state, params),
            params,
            text,
            text_w,
            row_y,
            bold,
            font,
        ),
{
    let d = scoreboard::overlay_drawn(state, params);
    let b = scoreboard::board(state, params);
    let p = part(state, params, k);
    assert(p.contains(p[0]));
    assert(p.contains(p[1]));
    lemma_part(state, params, k, p[0]);
    lemma_part(state, params, k, p[1]);
    let w = params.frame_width as int;
    let x = b.sb_x + scoreboard::half(b.total_w - text_w - 2 * b.text_pad);
    let y = b.baseline(row_y, font);
    lemma_fill(d, x, row_y, text_w + 2 * b.text_pad, b.row_h, light_grey());
    lemma_text(d, x + b.text_pad, y, text, bold, font, near_black(), params);
    assert(x + (text_w + 2 * b.text_pad) == x + text_w + 2 * b.text_pad);
    assert(cell(d, x, x + text_w + 2 * b.text_pad, row_y, b.row_h, light_grey()));
    assert(in_row(y, row_y, b.row_h, font, scoreboard::scaled(2_000, w)));
}

/// The phase stands above the middle row and the state below it, both in the
/// middle of the frame.
pub proof fn law_phase_above_state_below(
    state: &ScoreboardState,
    params: &LayoutParams,
) -> (m: Middle)
    requires
        in_range(scoreboard::overlay_drawn(state, params)),
    ensures
        has_middle(scoreboard::overlay_drawn(state, params), m, state, params),
        ({
            let d = scoreboard::overlay_drawn(state, params);
            let w = params.frame_width as int;
            let gap = scoreboard::scaled(2_000, w);
            let phase = scoreboard::scaled(params.sizes.font_sb_phase as int, w);
            let below = scoreboard::scaled(params.sizes.font_sb_state as int, w);
            &&& state.phase_text@.len() > 0 ==> labelled(
                d,
                params,
                state.phase_text@,
                scoreboard::width(state.phase_text@.len() as int, phase, 70),
                m.y - gap - m.height,
                true,
                phase,
            )
            &&& state.state_text@.len() > 0 ==> labelled(
                d,
                params,
                state.state_text@,
                scoreboard::width(state.state_text@.len() as int, below, 62),
                m.y + m.height + gap,
                false,
                below,
            )
        }),
{
    let m = lemma_middle(state, params);
    let b = scoreboard::board(state, params);
    if state.phase_text@.len() > 0 {
        let n = state.phase_text@.len() as int;
        let text_w = scoreboard::width(n, b.font_phase, 70);
        assert(m.y - b.row_gap - m.height == b.sb_y);
        lemma_labelled(state, params, 1, state.phase_text@, text_w, b.sb_y, true, b.font_phase);
    }
    if state.state_text@.len() > 0 {
        let n = state.state_text@.len() as int;
        let text_w = scoreboard::width(n, b.font_state, 62);
        assert(m.y + m.height + b.row_gap == b.row3_y());
        lemma_labelled(state, params, 5, state.state_text@, text_w, b.row3_y(), false, b.font_state);
    }
    m
}

/// A message budget on a light backing in the row above the middle one, in the
/// middle between two edges.
pub open spec fn budget_over(
    d: Seq<Draw>,
    params: &LayoutParams,
    m: Middle,
    budget: u32,
    left: int,
    right: int,
) -> bool {
    let w = params.frame_width as int;
    let pad = scoreboard::scaled(18_000, w);
    let font = scoreboard::scaled(params.sizes.font_sb_phase as int, w);
    let label = text::decimal(budget as nat);
    let span = scoreboard::width(label.len() as int, font, 65) + 2 * pad;
    let row_y = m.y - scoreboard::scaled(2_000, w) - m.height;
    exists|x: int, y: int| #[trigger]
        bold_text(d, params, x + pad, y, label, font, near_black()) && cell(
            d,
            x,
            x + span,
            row_y,
            m.height,
            light_grey(),
        ) && centred(x, span, left, right) && in_row(
            y,
            row_y,
            m.height,
            font,
            scoreboard::scaled(2_000, w),
        )
}

/// Outside of a shoot-out each team's message budget stands over that team's name
/// cell, unless it is used up.
pub proof fn law_budgets_over_names(state: &ScoreboardState, params: &LayoutParams) -> (m: Middle)
    requires
        in_range(scoreboard::overlay_drawn(state, params)),
        state.shootout is None,
    ensures
        has_middle(scoreboard::overlay_drawn(state, params), m, state, params),
        ({
            let d = scoreboard::overlay_drawn(state, params);
            &&& state.home_message_budget > 0 ==> budget_over(
                d,
                params,
                m,
                state.home_message_budget,
                m.name1,
                m.score1,
            )
            &&& state.away_message_budget > 0 ==> budget_over(
                d,
                params,
                m,
                state.away_message_budget,
                m.name2,
                m.end,
            )
        }),
{
    let m = lemma_middle(state, params);
    let b = scoreboard::board(state, params);
    assert(m.y - b.row_gap - m.height == b.sb_y);
    if state.home_message_budget > 0 {
        lemma_budget(state, params, 2, state.home_message_budget, b.name1_x());
    }
    if state.away_message_budget > 0 {
        lemma_budget(state, params, 3, state.away_message_budget, b.name2_x());
    }
    m
}

proof fn lemma_budget(
    state: &ScoreboardState,
    params: &LayoutParams,
    k: int,
    budget: u32,
    name_x: int,
)
    requires
        in_range(scoreboard::overlay_drawn(state, params)),
        state.shootout is None,
        budget > 0,
        k == 2 && budget == state.home_message_budget && name_x == scoreboard::board(
            state,
            params,
        ).name1_x() || k == 3 && budget == state.away_message_budget && name_x == scoreboard::board(
            state,
            params,
        ).name2_x(),
    ensures
        budget_over(
            scoreboard::overlay_drawn(state, params),
            params,
            middle_of(scoreboard::board(state, params)),
            budget,
            name_x,
            name_x + scoreboard::board(state, params).name_w,
        ),
{
    let d = scoreboard::overlay_drawn(state, params);
    let b = scoreboard::board(state, params);
    let p = part(state, params, k);
    let label = text::decimal(budget as nat);
    let span = scoreboard::width(label.len() as int, b.font_phase, 65) + 2 * b.text_pad;
    let x = name_x + b.name_w / 2 - span / 2;
    let y = b.baseline(b.sb_y, b.font_phase);
    assert(p.contains(p[0]));
    assert(p.contains(p[1]));
    lemma_part(state, params, k, p[0]);
    lemma_part(state, params, k, p[1]);
    lemma_fill(d, x, b.sb_y, span, b.row_h, light_grey());
    lemma_text(d, x + b.text_pad, y, label, true, b.font_phase, near_black(), params);
}

/// The pills: the field's name in the top left corner, the clock in the top right
/// one, each text a pad inside of its pill.
pub proof fn law_pills_in_their_corners(state: &ScoreboardState, params: &LayoutParams)
    requires
        in_range(scoreboard::overlay_drawn(state, params)),
    ensures
        ({
            let d = scoreboard::overlay_drawn(state, params);
            let w = params.frame_width as int;
            let margin = scoreboard::scaled(16_000, w);
            let pad = scoreboard::scaled(12_000, w);
            let rise = scoreboard::scaled(6_000, w);
            let font = scoreboard::scaled(params.sizes.font_pill as int, w);
            let half_grey = Rgba { r: 217, g: 217, b: 217, a: 128 };
            let field = state.field_name@;
            let clock = state.clock_text@;
            let field_w = scoreboard::width(field.len() as int, font, 62);
            let clock_w = scoreboard::width(clock.len() as int, font, 65);
            let high = font + 2 * rise;
            let y = margin + rise + font;
            &&& field.len() > 0 ==> {
                &&& cell(d, margin, margin + field_w + 2 * pad, margin, high, half_grey)
                &&& bold_text(d, params, margin + pad, y, field, font, near_black())
            }
            &&& clock.len() > 0 ==> {
                &&& cell(d, w - margin - clock_w - 2 * pad, w - margin, margin, high, half_grey)
                &&& bold_text(
                    d,
                    params,
                    w - margin - pad - clock_w,
                    y,
                    clock,
                    font,
                    near_black(),
                )
            }
        }),
{
    let d = scoreboard::overlay_drawn(state, params);
    let w = params.frame_width as int;
    let margin = scoreboard::scaled(16_000, w);
    let pad = scoreboard::scaled(12_000, w);
    let rise = scoreboard::scaled(6_000, w);
    let font = scoreboard::scaled(params.sizes.font_pill as int, w);
    let half_grey = Rgba { r: 217, g: 217, b: 217, a: 128 };
    let field = state.field_name@;
    let clock = state.clock_text@;
    let y = margin + rise + font;
    if field.len() > 0 {
        let field_w = scoreboard::width(field.len() as int, font, 62) + 2 * pad;
        let p = side(state, params, 0);
        assert(p.contains(p[0]) && p.contains(p[1]));
        lemma_side(state, params, 0, p[0]);
        lemma_side(state, params, 0, p[1]);
        lemma_fill(d, margin, margin, field_w, font + 2 * rise, half_grey);
        lemma_text(d, margin + pad, y, field, true, font, near_black(), params);
    }
    if clock.len() > 0 {
        let clock_w = scoreboard::width(clock.len() as int, font, 65) + 2 * pad;
        let x = w - margin - clock_w;
        let p = side(state, params, 1);
        assert(p.contains(p[0]) && p.contains(p[1]));
        lemma_side(state, params, 1, p[0]);
        lemma_side(state, params, 1, p[1]);
        lemma_fill(d, x, margin, clock_w, font + 2 * rise, half_grey);
        lemma_text(d, x + pad, y, clock, true, font, near_black(), params);
    }
}

/// The colour of a shot's dot: the team's for a success, grey for a miss.
pub open spec fn shot_color(mask: u32, i: int, team: Rgba) -> Rgba {
    if (mask >> (i as u32)) & 1u32 == 1u32 {
        team
    } else {
        Rgba { r: 102, g: 102, b: 102, a: 255 }
    }
}

/// Dot `i` of a row that starts at `x`.
pub open spec fn dot(d: Seq<Draw>, params: &LayoutParams, x: int, y: int, i: int, color: Rgba) -> bool {
    let size = 2 * scoreboard::scaled(4_000, params.frame_width as int);
    let step = size + scoreboard::scaled(8_000, params.frame_width as int);
    cell(d, x + i * step, x + i * step + size, y, size, color)
}

/// The length of a row of dots.
pub open spec fn dots_span(params: &LayoutParams, count: int) -> int {
    count * (2 * scoreboard::scaled(4_000, params.frame_width as int)) + (count - 1)
        * scoreboard::scaled(8_000, params.frame_width as int)
}

proof fn lemma_dots(state: &ScoreboardState, params: &LayoutParams, home: bool, i: int)
    requires
        in_range(scoreboard::overlay_drawn(state, params)),
        state.shootout is Some,
        scoreboard::shots_of(state, home) matches Some(shots) && 0 <= i < shots.0,
    ensures
        ({
            let d = scoreboard::overlay_drawn(state, params);
            let b = scoreboard::board(state, params);
            let (mine, mask, theirs) = scoreboard::shots_of(state, home)->0;
            let size = 2 * scoreboard::scaled(4_000, params.frame_width as int);
            let total = scoreboard::max_int(mine as int, theirs as int);
            let name_x = if home {
                b.name1_x()
            } else {
                b.name2_x()
            };
            let team = if home {
                home_color(state)
            } else {
                away_color(state)
            };
            dot(
                d,
                params,
                name_x + b.name_w / 2 - dots_span(params, total) / 2,
                b.baseline(b.sb_y, b.font_phase) - size - b.nudge,
                i,
                shot_color(mask, i, team),
            )
        }),
{
    let d = scoreboard::overlay_drawn(state, params);
    let b = scoreboard::board(state, params);
    let k: int = if home {
        2
    } else {
        3
    };
    let p = part(state, params, k);
    let (mine, mask, theirs) = scoreboard::shots_of(state, home)->0;
    let size = 2 * scoreboard::scaled(4_000, params.frame_width as int);
    let gap = scoreboard::scaled(8_000, params.frame_width as int);
    let total = scoreboard::max_int(mine as int, theirs as int);
    let name_x = if home {
        b.name1_x()
    } else {
        b.name2_x()
    };
    let team = if home {
        home_color(state)
    } else {
        away_color(state)
    };
    let x = name_x + b.name_w / 2 - dots_span(params, total) / 2;
    let y = b.baseline(b.sb_y, b.font_phase) - size - b.nudge;
    assert(p[i] == scoreboard::fill(
        x + i * (size + gap),
        y,
        size,
        size,
        shot_color(mask, i, team),
    ));
    assert(p.contains(p[i]));
    lemma_part(state, params, k, p[i]);
    lemma_fill(d, x + i * (size + gap), y, size, size, shot_color(mask, i, team));
}

/// In a shoot-out each team has a dot for every shot that it has taken, in order
/// and over its own name cell, in its colour where the shot was a success. Both
/// rows have room for as many shots as the team that has taken more.
pub proof fn law_shots_as_dots(
    state: &ScoreboardState,
    params: &LayoutParams,
) -> (r: (Middle, int, int, int))
    requires
        in_range(scoreboard::overlay_drawn(state, params)),
        state.shootout is Some,
    ensures
        has_middle(scoreboard::overlay_drawn(state, params), r.0, state, params),
        ({
            let d = scoreboard::overlay_drawn(state, params);
            let (m, x1, x2, y) = r;
            let so = state.shootout->0;
            let w = params.frame_width as int;
            let size = 2 * scoreboard::scaled(4_000, w);
            let lift = scoreboard::scaled(2_000, w);
            let font = scoreboard::scaled(params.sizes.font_sb_phase as int, w);
            let most = if so.home_penalty_shot >= so.away_penalty_shot {
                so.home_penalty_shot as int
            } else {
                so.away_penalty_shot as int
            };
            &&& centred(x1, dots_span(params, most), m.name1, m.score1)
            &&& centred(x2, dots_span(params, most), m.name2, m.end)
            &&& in_row(y + size + lift, m.y - lift - m.height, m.height, font, lift)
            &&& forall|i: int|
                0 <= i < so.home_penalty_shot ==> #[trigger] dot(
                    d,
                    params,
                    x1,
                    y,
                    i,
                    shot_color(so.home_single_shots, i, home_color(state)),
                )
            &&& forall|i: int|
                0 <= i < so.away_penalty_shot ==> #[trigger] dot(
                    d,
                    params,
                    x2,
                    y,
                    i,
                    shot_color(so.away_single_shots, i, away_color(state)),
                )
        }),
{
    let m = lemma_middle(state, params);
    let d = scoreboard::overlay_drawn(state, params);
    let b = scoreboard::board(state, params);
    let so = state.shootout->0;
    let w = params.frame_width as int;
    let size = 2 * scoreboard::scaled(4_000, w);
    let most = scoreboard::max_int(so.home_penalty_shot as int, so.away_penalty_shot as int);
    assert(most == scoreboard::max_int(so.away_penalty_shot as int, so.home_penalty_shot as int));
    let x1 = b.name1_x() + b.name_w / 2 - dots_span(params, most) / 2;
    let x2 = b.name2_x() + b.name_w / 2 - dots_span(params, most) / 2;
    let y = b.baseline(b.sb_y, b.font_phase) - size - b.nudge;
    assert forall|i: int| 0 <= i < so.home_penalty_shot implies #[trigger] dot(
        d,
        params,
        x1,
        y,
        i,
        shot_color(so.home_single_shots, i, home_color(state)),
    ) by {
        lemma_dots(state, params, true, i);
    }
    assert forall|i: int| 0 <= i < so.away_penalty_shot implies #[trigger] dot(
        d,
        params,
        x2,
        y,
        i,
        shot_color(so.away_single_shots, i, away_color(state)),
    ) by {
        lemma_dots(state, params, false, i);
    }
    assert(b.row_gap == b.nudge);
    assert(m.y - b.row_gap - m.height == b.sb_y);
    (m, x1, x2, y)
}

/// A tile of a stack is drawn if it does not rise above the limit.
proof fn lemma_stack(
    t: Tile,
    tiles: Seq<PenaltyTile>,
    y: int,
    color: Rgba,
    params: &LayoutParams,
    k: int,
    x: Draw,
)
    requires
        t.tile_h + t.gap >= 0,
        0 <= k < tiles.len(),
        y - k * (t.tile_h + t.gap) >= t.top_limit,
        scoreboard::tile_at(t, &tiles[k], y - k * (t.tile_h + t.gap), color, params).contains(x),
    ensures
        scoreboard::tile_stack(t, tiles, y, color, params).contains(x),
    decreases k,
{
    let step = t.tile_h + t.gap;
    assert(k * step >= 0) by (nonlinear_arith)
        requires
            k >= 0,
            step >= 0,
    ;
    let first = scoreboard::tile_at(t, &tiles[0], y, color, params);
    let rest = scoreboard::tile_stack(t, tiles.drop_first(), y - step, color, params);
    if k > 0 {
        assert(k * step == (k - 1) * step + step) by (nonlinear_arith);
        assert(tiles.drop_first()[k - 1] == tiles[k]);
        lemma_stack(t, tiles.drop_first(), y - step, color, params, k - 1, x);
    } else {
        assert(k * step == 0) by (nonlinear_arith)
            requires
                k == 0,
        ;
    }
    lemma_contains_sum(first, rest, x);
}

/// Seconds as minutes and seconds.
pub open spec fn minutes_and_seconds(secs: nat) -> Seq<char> {
    text::decimal2(secs / 60) + seq![':'] + text::decimal2(secs % 60)
}

/// A penalised robot's tile with its top left corner at `(x, y)`: the number on
/// the team's colour, beside it the time that is left, below both the reason, and
/// for a goalkeeper a badge in the corner.
pub open spec fn tile_drawn(
    d: Seq<Draw>,
    params: &LayoutParams,
    tile: PenaltyTile,
    team: Rgba,
    x: int,
    y: int,
) -> bool {
    let w = params.frame_width as int;
    let wide = scoreboard::scaled(params.sizes.penalty_tile_w as int, w);
    let high = scoreboard::scaled(params.sizes.penalty_tile_h as int, w);
    let pad = scoreboard::scaled(4_000, w);
    let lift = scoreboard::scaled(2_000, w);
    let num = scoreboard::scaled(params.sizes.font_penalty_num as int, w);
    let time = scoreboard::scaled(params.sizes.font_penalty_time as int, w);
    let reason = scoreboard::scaled(params.sizes.font_penalty_reason as int, w);
    let number = text::decimal(tile.player_number as nat);
    let left = minutes_and_seconds(tile.secs_remaining as nat);
    exists|split: int, end: int, row: int, x1: int, x2: int, base: int|
        #![trigger cell(d, split, end, y, row, light_grey()), bold_text(d, params, x1, base, number, num, readable_on(team)), regular_text(d, params, x2, base, left, time, near_black())]
        {
            &&& split == x + scoreboard::width(2, num, 65) + 2 * pad
            &&& split <= end && (end == split || end == x + wide)
            &&& row >= num + 2 * pad && row >= time + 2 * pad && 3 * row >= 2 * high - 2
            &&& 3 * row <= 2 * high || row == num + 2 * pad || row == time + 2 * pad
            &&& cell(d, x, split, y, row, team)
            &&& cell(d, split, end, y, row, light_grey())
            &&& cell(d, x, x + wide, y + row, high - row, light_grey())
            &&& bold_text(d, params, x1, base, number, num, readable_on(team))
            &&& centred(x1, scoreboard::width(number.len() as int, num, 65), x, split)
            &&& regular_text(d, params, x2, base, left, time, near_black())
            &&& centred(x2, scoreboard::width(left.len() as int, time, 65), split, end)
            &&& in_row(base, y, row, num, lift)
            &&& tile.penalty_reason@.len() > 0 ==> reason_drawn(
                d,
                params,
                tile.penalty_reason@,
                reason,
                x + pad,
                wide - 2 * pad,
                y + row,
                high - row,
            )
            &&& tile.is_goalkeeper ==> badge_drawn(d, params, reason, x, y)
        }
}

/// A reason in the lower row of a tile, cut to what the tile leaves for it.
pub open spec fn reason_drawn(
    d: Seq<Draw>,
    params: &LayoutParams,
    reason: Seq<char>,
    font: int,
    x: int,
    room: int,
    row_y: int,
    row_h: int,
) -> bool {
    let lift = scoreboard::scaled(2_000, params.frame_width as int);
    exists|y: int, shown: Seq<char>| #[trigger]
        regular_text(d, params, x, y, shown, font, near_black()) && -1 <= (row_h + font) - 2 * (y
            + lift - row_y) <= 1 && (room >= 0 ==> shown == scoreboard::truncated(
            reason,
            room,
            font,
        )) && (room < 0 ==> shown == scoreboard::truncated(reason, 0, font))
}

/// The badge of a goalkeeper, light on dark.
pub open spec fn badge_drawn(d: Seq<Draw>, params: &LayoutParams, reason: int, x: int, y: int) -> bool {
    let w = params.frame_width as int;
    let inset = scoreboard::scaled(3_000, w);
    let white = Rgba { r: 255, g: 255, b: 255, a: 255 };
    exists|font: int|
        #![trigger bold_text(d, params, x + 2 * inset, y + inset + font + scoreboard::scaled(1_000, w), "GK"@, font, white)]
        font == scoreboard::badge_font(reason) && bold_text(
            d,
            params,
            x + 2 * inset,
            y + inset + font + scoreboard::scaled(1_000, w),
            "GK"@,
            font,
            white,
        ) && cell(
            d,
            x + inset,
            x + inset + scoreboard::width(2, font, 62) + scoreboard::scaled(6_000, w),
            y + inset,
            font + scoreboard::scaled(4_000, w),
            near_black(),
        )
}

/// What a shown tile draws, the whole list draws.
proof fn lemma_tile_item(state: &ScoreboardState, params: &LayoutParams, home: bool, k: int, i: int)
    requires
        ({
            let t = scoreboard::tile_geometry(home, params);
            let tiles = if home {
                state.home_penalty_timers@
            } else {
                state.away_penalty_timers@
            };
            let y = t.first_y - k * (t.tile_h + t.gap);
            let team = if home {
                home_color(state)
            } else {
                away_color(state)
            };
            &&& 0 <= k < tiles.len()
            &&& y >= t.top_limit
            &&& 0 <= i < scoreboard::tile_at(t, &tiles[k], y, team, params).len()
        }),
    ensures
        ({
            let t = scoreboard::tile_geometry(home, params);
            let tiles = if home {
                state.home_penalty_timers@
            } else {
                state.away_penalty_timers@
            };
            let y = t.first_y - k * (t.tile_h + t.gap);
            let team = if home {
                home_color(state)
            } else {
                away_color(state)
            };
            scoreboard::overlay_drawn(state, params).contains(
                scoreboard::tile_at(t, &tiles[k], y, team, params)[i],
            )
        }),
{
    let t = scoreboard::tile_geometry(home, params);
    let tiles = if home {
        state.home_penalty_timers@
    } else {
        state.away_penalty_timers@
    };
    let y = t.first_y - k * (t.tile_h + t.gap);
    let team = if home {
        home_color(state)
    } else {
        away_color(state)
    };
    let s = scoreboard::tile_at(t, &tiles[k], y, team, params);
    assert(s.contains(s[i]));
    super::scoreboard_laws::lemma_tile_geometry(home, params);
    lemma_stack(t, tiles, t.first_y, team, params, k, s[i]);
    let n: int = if home {
        3
    } else {
        4
    };
    lemma_side(state, params, n, s[i]);
}

/// The home team's penalised robots stand in the bottom left corner and the away
/// team's in the bottom right one, the first of them lowest and each further one
/// above it, as many as fit below the limit. Each tile has its own robot's number,
/// time, reason and badge, in its team's colour.
#[verifier::rlimit(60)]
pub proof fn law_penalty_tiles_in_their_corner(
    state: &ScoreboardState,
    params: &LayoutParams,
    home: bool,
    k: int,
)
    requires
        in_range(scoreboard::overlay_drawn(state, params)),
        0 <= k < if home {
            state.home_penalty_timers@.len()
        } else {
            state.away_penalty_timers@.len()
        },
    ensures
        ({
            let d = scoreboard::overlay_drawn(state, params);
            let w = params.frame_width as int;
            let margin = scoreboard::scaled(16_000, w);
            let wide = scoreboard::scaled(params.sizes.penalty_tile_w as int, w);
            let high = scoreboard::scaled(params.sizes.penalty_tile_h as int, w);
            let y = params.frame_height - margin - high - k * (high + scoreboard::scaled(6_000, w));
            y >= margin + scoreboard::scaled(120_000, w) ==> if home {
                tile_drawn(
                    d,
                    params,
                    state.home_penalty_timers@[k],
                    home_color(state),
                    margin,
                    y,
                )
            } else {
                tile_drawn(
                    d,
                    params,
                    state.away_penalty_timers@[k],
                    away_color(state),
                    w - margin - wide,
                    y,
                )
            }
        }),
{
    let d = scoreboard::overlay_drawn(state, params);
    let t = scoreboard::tile_geometry(home, params);
    let tile = if home {
        state.home_penalty_timers@[k]
    } else {
        state.away_penalty_timers@[k]
    };
    let team = if home {
        home_color(state)
    } else {
        away_color(state)
    };
    let y = t.first_y - k * (t.tile_h + t.gap);
    if y >= t.top_limit {
        lemma_one_tile(state, params, home, k);
    }
}

#[verifier::rlimit(60)]
proof fn lemma_one_tile(state: &ScoreboardState, params: &LayoutParams, home: bool, k: int)
    requires
        in_range(scoreboard::overlay_drawn(state, params)),
        0 <= k < if home {
            state.home_penalty_timers@.len()
        } else {
            state.away_penalty_timers@.len()
        },
        ({
            let t = scoreboard::tile_geometry(home, params);
            t.first_y - k * (t.tile_h + t.gap) >= t.top_limit
        }),
    ensures
        ({
            let t = scoreboard::tile_geometry(home, params);
            let tile = if home {
                state.home_penalty_timers@[k]
            } else {
                state.away_penalty_timers@[k]
            };
            let team = if home {
                home_color(state)
            } else {
                away_color(state)
            };
            tile_drawn(
                scoreboard::overlay_drawn(state, params),
                params,
                tile,
                team,
                t.tile_x,
                t.first_y - k * (t.tile_h + t.gap),
            )
        }),
{
    let d = scoreboard::overlay_drawn(state, params);
    let t = scoreboard::tile_geometry(home, params);
    let tile = if home {
        state.home_penalty_timers@[k]
    } else {
        state.away_penalty_timers@[k]
    };
    let team = if home {
        home_color(state)
    } else {
        away_color(state)
    };
    let y = t.first_y - k * (t.tile_h + t.gap);
    let s = scoreboard::tile_at(t, &tile, y, team, params);
    let n: int = if tile.is_goalkeeper {
        4
    } else {
        2
    };
    let w = params.frame_width as int;
    let timer_w = scoreboard::max_int(t.tile_w - t.num_box_w, 0);
    let row2_h = t.tile_h - t.row1_h;
    let lift = scoreboard::scaled(2_000, w);
    let base = y + (t.row1_h + t.font_num) / 2 - lift;
    let number = text::decimal(tile.player_number as nat);
    let left = minutes_and_seconds(tile.secs_remaining as nat);
    assert(left =~= scoreboard::countdown(tile.secs_remaining as nat));
    lemma_tile_item(state, params, home, k, 0);
    lemma_tile_item(state, params, home, k, 1);
    lemma_tile_item(state, params, home, k, n);
    lemma_tile_item(state, params, home, k, n + 1);
    lemma_tile_item(state, params, home, k, n + 2);
    let split = t.tile_x + t.num_box_w;
    let end = split + timer_w;
    lemma_fill(d, t.tile_x, y, t.num_box_w, t.row1_h, team);
    lemma_fill(d, split, y, timer_w, t.row1_h, light_grey());
    lemma_fill(d, t.tile_x, y + t.row1_h, t.tile_w, row2_h, light_grey());
    let x1 = t.tile_x + scoreboard::half(
        t.num_box_w - scoreboard::width(number.len() as int, t.font_num, 65),
    );
    let x2 = split + scoreboard::half(
        timer_w - scoreboard::width(left.len() as int, t.font_time, 65),
    );
    lemma_text(d, x1, base, number, true, t.font_num, readable_on(team), params);
    lemma_text(d, x2, base, left, false, t.font_time, near_black(), params);
    if tile.penalty_reason@.len() > 0 {
        let shown = scoreboard::truncated(
            tile.penalty_reason@,
            scoreboard::max_int(t.tile_w - 2 * t.row_pad, 0),
            t.font_reason,
        );
        let ry = y + t.row1_h + scoreboard::half(row2_h + t.font_reason) - lift;
        lemma_tile_item(state, params, home, k, n + 3);
        lemma_text(
            d,
            t.tile_x + t.row_pad,
            ry,
            shown,
            false,
            t.font_reason,
            near_black(),
            params,
        );
        assert(reason_drawn(
            d,
            params,
            tile.penalty_reason@,
            t.font_reason,
            t.tile_x + t.row_pad,
            t.tile_w - 2 * t.row_pad,
            y + t.row1_h,
            row2_h,
        ));
    }
    if tile.is_goalkeeper {
        lemma_tile_item(state, params, home, k, 2);
        lemma_tile_item(state, params, home, k, 3);
        lemma_badge(d, t, y, params, s[2], s[3]);
    }
    assert(cell(d, split, end, y, t.row1_h, light_grey()));
    assert(bold_text(d, params, x1, base, number, t.font_num, readable_on(team)));
    assert(regular_text(d, params, x2, base, left, t.font_time, near_black()));
}

proof fn lemma_badge(
    d: Seq<Draw>,
    t: Tile,
    y: int,
    params: &LayoutParams,
    back: Draw,
    label: Draw,
)
    requires
        in_range(d),
        d.contains(back),
        d.contains(label),
        back == scoreboard::gk_badge(t, y, params)[0],
        label == scoreboard::gk_badge(t, y, params)[1],
    ensures
        badge_drawn(d, params, t.font_reason, t.tile_x, y),
{
    let w = params.frame_width as int;
    let inset = scoreboard::scaled(3_000, w);
    let font = scoreboard::badge_font(t.font_reason);
    let x = t.tile_x;
    let white = Rgba { r: 255, g: 255, b: 255, a: 255 };
    reveal_strlit("GK");
    let text_y = y + inset + font + scoreboard::scaled(1_000, w);
    lemma_text(d, x + inset + inset, text_y, "GK"@, true, font, white, params);
    lemma_fill(
        d,
        x + inset,
        y + inset,
        scoreboard::width(2, font, 62) + scoreboard::scaled(6_000, w),
        font + scoreboard::scaled(4_000, w),
        near_black(),
    );
    assert(x + 2 * inset == x + inset + inset);
    assert(bold_text(d, params, x + 2 * inset, text_y, "GK"@, font, white));
}

/// Lengths scale with the frame's width: a length in thousandths of a pixel at a width of
/// 1920 is off by at most half a pixel, and by one part in two million.
pub proof fn law_lengths_scale_with_frame(milli: int, frame_width: int)
    requires
        1 <= milli,
        1 <= frame_width,
    ensures
        ({
            let v = scoreboard::scaled(milli, frame_width);
            &&& v <= i32::MAX
            &&& v < i32::MAX ==> 0x20_0000 * (1_920_000 * v) <= 0x20_0001 * (milli * frame_width)
                + 0x20_0000 * 960_000
            &&& v < i32::MAX ==> 0x1f_ffff * (milli * frame_width) <= 0x20_0000 * (1_920_000 * v)
                + 0x20_0000 * 960_000
        }),
{
    reveal(scoreboard::scaled);
    floats::lemma_scaled_near(milli, frame_width);
}

/// A text is estimated as wide as its characters, each so many hundredths of its size,
/// rounded up to a pixel, but for one part in two million.
pub proof fn law_width_estimates(chars: int, size_px: int, percent: int)
    requires
        1 <= chars,
        1 <= size_px,
        1 <= percent,
    ensures
        ({
            let v = scoreboard::width(chars, size_px, percent);
            let exact = (chars * size_px) * percent;
            &&& v <= u32::MAX
            &&& v < u32::MAX ==> 0x1f_ffff * exact <= 0x20_0000 * (100 * v)
            &&& v < u32::MAX ==> 0x20_0000 * (100 * v) <= 0x20_0001 * exact + 0x20_0000 * 100
        }),
{
    reveal(scoreboard::width);
    floats::lemma_product_up_low(chars, size_px, percent);
    floats::lemma_product_up_high(chars, size_px, percent);
}

/// A text that fits is shown as it is. One that does not is cut to a part of it from its
/// start, with an ellipsis behind it, or to nothing.
pub proof fn law_texts_are_cut(text: Seq<char>, room: int, size_px: int)
    ensures
        ({
            let shown = scoreboard::truncated(text, room, size_px);
            let w = scoreboard::width(text.len() as int, size_px, 62);
            let dots = scoreboard::width(1, size_px, 62);
            &&& w <= room ==> shown == text
            &&& w > room && dots >= room ==> shown.len() == 0
            &&& w > room && dots < room ==> {
                &&& 0 < shown.len() <= text.len() + 1
                &&& shown.last() == '…'
                &&& forall|i: int|
                    0 <= i < shown.len() - 1 ==> #[trigger] shown[i] == text[i]
                &&& shown.len() > 1 ==> scoreboard::width(shown.len() - 1, size_px, 62) + dots
                    <= room
                &&& shown.len() <= text.len() ==> scoreboard::width(shown.len() as int, size_px, 62)
                    + dots > room
            }
        }),
{
    lemma_longest_prefix(text.len(), room, size_px);
}

proof fn lemma_longest_prefix(n: nat, room: int, size_px: int)
    ensures
        ({
            let k = scoreboard::fitting_prefix(n, room, size_px);
            let dots = scoreboard::width(1, size_px, 62);
            &&& k <= n
            &&& k > 0 ==> scoreboard::width(k as int, size_px, 62) + dots <= room
            &&& k < n ==> scoreboard::width(k as int + 1, size_px, 62) + dots > room
        }),
    decreases n,
{
    if n > 0 && scoreboard::width(n as int, size_px, 62) + scoreboard::width(1, size_px, 62) > room {
        lemma_longest_prefix((n - 1) as nat, room, size_px);
    }
}

} // verus!
