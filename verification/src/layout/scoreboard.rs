//! Scoreboard layout.
//!
//! - top-left field-name pill, top-right clock pill;
//! - bottom-centre scoreboard of three rows: the phase between the two
//!   message budgets (or shoot-out dots), then
//!   `[colour] name  score  CLOCK  score  name [colour]`, then the state;
//! - bottom-left and bottom-right columns of penalty tiles.
//!
//! Commands come in paint order: a backing before what stands on it.
//!
//! Sizes are tuned for a frame 1920 pixels wide and scale linearly with the
//! frame width. Text widths are estimated from the number of characters, on
//! the wide side, so that the layout needs no font.

use vstd::prelude::*;
use vstd::string::StrSliceExecFns;
use crate::commands;
use crate::commands::{Draw, OverlayCommand};
use crate::glyphs::{FontId, FontStyle};
use crate::floats;
use crate::renderer::color;
use crate::renderer::color::Rgba;
use crate::text;

verus! {

/// Layout target.
#[derive(Debug, Clone, Copy)]
pub struct LayoutParams {
    pub frame_width: u32,
    pub frame_height: u32,
    pub regular_font: FontId,
    pub bold_font: FontId,
    pub sizes: LayoutSizes,
}

impl LayoutParams {
    /// The frame can be addressed with signed pixel coordinates.
    pub open spec fn wf(&self) -> bool {
        self.frame_width <= i32::MAX && self.frame_height <= i32::MAX
    }
}

/// Tunable sizes, in thousandths of a pixel at the reference width of 1920.
#[derive(Debug, Clone, Copy)]
pub struct LayoutSizes {
    /// Field-name and clock pill text.
    pub font_pill: u32,
    /// Team names.
    pub font_sb_name: u32,
    /// Scores and game clock.
    pub font_sb_score: u32,
    /// Row 1: phase label and message budget.
    pub font_sb_phase: u32,
    /// Row 3: state text.
    pub font_sb_state: u32,
    /// Player number on a penalty tile.
    pub font_penalty_num: u32,
    /// Countdown on a penalty tile.
    pub font_penalty_time: u32,
    /// Reason on a penalty tile.
    pub font_penalty_reason: u32,
    /// Height of one scoreboard row.
    pub sb_row_h: u32,
    pub penalty_tile_w: u32,
    pub penalty_tile_h: u32,
}

/// The sizes the layout was tuned with.
pub open spec fn default_sizes() -> LayoutSizes {
    LayoutSizes {
        font_pill: 44_000,
        font_sb_name: 37_000,
        font_sb_score: 48_000,
        font_sb_phase: 35_000,
        font_sb_state: 35_000,
        font_penalty_num: 44_000,
        font_penalty_time: 44_000,
        font_penalty_reason: 22_000,
        sb_row_h: 60_000,
        penalty_tile_w: 220_000,
        penalty_tile_h: 110_000,
    }
}

impl Default for LayoutSizes {
    fn default() -> (s: Self)
        ensures
            s == default_sizes(),
    {
        LayoutSizes {
            font_pill: 44_000,
            font_sb_name: 37_000,
            font_sb_score: 48_000,
            font_sb_phase: 35_000,
            font_sb_state: 35_000,
            font_penalty_num: 44_000,
            font_penalty_time: 44_000,
            font_penalty_reason: 22_000,
            sb_row_h: 60_000,
            penalty_tile_w: 220_000,
            penalty_tile_h: 110_000,
        }
    }
}

/// What the scoreboard shows.
#[derive(Debug, Clone)]
pub struct ScoreboardState {
    /// Top-left pill text.
    pub field_name: String,
    /// Top-right pill text, formatted by the caller.
    pub clock_text: String,
    pub home_team_name: String,
    pub away_team_name: String,
    /// `None` falls back to red.
    pub home_team_color: Option<Rgba>,
    /// `None` falls back to blue.
    pub away_team_color: Option<Rgba>,
    /// Goalkeeper jersey. Shown as a strip beside the team colour when it
    /// differs from it.
    pub home_team_goalkeeper_color: Option<Rgba>,
    pub away_team_goalkeeper_color: Option<Rgba>,
    pub home_score: u32,
    pub away_score: u32,
    /// Game clock, e.g. `"07:42"`.
    pub game_clock_text: String,
    /// A stopped clock is dimmed.
    pub clock_stopped: bool,
    /// Row 1 label.
    pub phase_text: String,
    /// Row 3 line.
    pub state_text: String,
    /// Message budgets beside the phase label; 0 shows nothing.
    pub home_message_budget: u32,
    pub away_message_budget: u32,
    /// Shoot-out dots in place of the message budgets.
    pub shootout: Option<ShootoutState>,
    pub home_penalty_timers: Vec<PenaltyTile>,
    pub away_penalty_timers: Vec<PenaltyTile>,
}

/// Shoot-out indicators: the number of shots each team has taken, and a mask
/// of the successful ones.
#[derive(Debug, Clone)]
pub struct ShootoutState {
    pub home_penalty_shot: u32,
    pub home_single_shots: u32,
    pub away_penalty_shot: u32,
    pub away_single_shots: u32,
}

impl ShootoutState {
    /// The masks record every shot.
    pub open spec fn wf(&self) -> bool {
        self.home_penalty_shot <= 32 && self.away_penalty_shot <= 32
    }
}

/// One penalised robot.
#[derive(Debug, Clone)]
pub struct PenaltyTile {
    pub player_number: u32,
    pub secs_remaining: u32,
    /// Short reason, e.g. `"PUSHING"`. Empty leaves the row blank.
    pub penalty_reason: String,
    /// Adds a `"GK"` badge.
    pub is_goalkeeper: bool,
}

impl ScoreboardState {
    pub open spec fn wf(&self) -> bool {
        self.shootout matches Some(so) ==> so.wf()
    }

    /// Whether a shoot-out, if there is one, has no more shots than its masks
    /// record.
    pub fn is_drawable(&self) -> (b: bool)
        ensures
            b == self.wf(),
    {
        match &self.shootout {
            Some(so) => so.home_penalty_shot <= 32 && so.away_penalty_shot <= 32,
            None => true,
        }
    }
}

impl Default for ShootoutState {
    fn default() -> (s: Self)
        ensures
            s.home_penalty_shot == 0,
            s.home_single_shots == 0,
            s.away_penalty_shot == 0,
            s.away_single_shots == 0,
    {
        ShootoutState {
            home_penalty_shot: 0,
            home_single_shots: 0,
            away_penalty_shot: 0,
            away_single_shots: 0,
        }
    }
}

impl Default for PenaltyTile {
    fn default() -> (t: Self)
        ensures
            t.player_number == 0,
            t.secs_remaining == 0,
            t.penalty_reason@.len() == 0,
            !t.is_goalkeeper,
    {
        PenaltyTile {
            player_number: 0,
            secs_remaining: 0,
            penalty_reason: String::new(),
            is_goalkeeper: false,
        }
    }
}

impl Default for ScoreboardState {
    fn default() -> (s: Self)
        ensures
            s.wf(),
            s.field_name@.len() == 0,
            s.clock_text@.len() == 0,
            s.home_team_name@.len() == 0,
            s.away_team_name@.len() == 0,
            s.home_team_color is None,
            s.away_team_color is None,
            s.home_team_goalkeeper_color is None,
            s.away_team_goalkeeper_color is None,
            s.home_score == 0,
            s.away_score == 0,
            s.game_clock_text@.len() == 0,
            !s.clock_stopped,
            s.phase_text@.len() == 0,
            s.state_text@.len() == 0,
            s.home_message_budget == 0,
            s.away_message_budget == 0,
            s.shootout is None,
            s.home_penalty_timers@.len() == 0,
            s.away_penalty_timers@.len() == 0,
    {
        ScoreboardState {
            field_name: String::new(),
            clock_text: String::new(),
            home_team_name: String::new(),
            away_team_name: String::new(),
            home_team_color: None,
            away_team_color: None,
            home_team_goalkeeper_color: None,
            away_team_goalkeeper_color: None,
            home_score: 0,
            away_score: 0,
            game_clock_text: String::new(),
            clock_stopped: false,
            phase_text: String::new(),
            state_text: String::new(),
            home_message_budget: 0,
            away_message_budget: 0,
            shootout: None,
            home_penalty_timers: Vec::new(),
            away_penalty_timers: Vec::new(),
        }
    }
}

// Colours.

/// Pills: light grey at half weight.
pub open spec fn pill_bg() -> Rgba {
    Rgba { r: 217, g: 217, b: 217, a: 128 }
}

/// Backings of labels: opaque light grey.
pub open spec fn label_bg() -> Rgba {
    Rgba { r: 217, g: 217, b: 217, a: 255 }
}

/// Text on light grey.
pub open spec fn text_dark() -> Rgba {
    Rgba { r: 12, g: 12, b: 12, a: 255 }
}

/// Text on the goalkeeper badge.
pub open spec fn text_light() -> Rgba {
    Rgba { r: 255, g: 255, b: 255, a: 255 }
}

/// Stopped clock, and shots that missed.
pub open spec fn mid_grey() -> Rgba {
    Rgba { r: 102, g: 102, b: 102, a: 255 }
}

pub open spec fn default_home() -> Rgba {
    Rgba { r: 217, g: 25, b: 25, a: 255 }
}

pub open spec fn default_away() -> Rgba {
    Rgba { r: 25, g: 50, b: 217, a: 255 }
}

pub open spec fn or_color(c: Option<Rgba>, fallback: Rgba) -> Rgba {
    match c {
        Some(v) => v,
        None => fallback,
    }
}

/// Text colour on a team-coloured box.
pub open spec fn text_on(c: Rgba) -> Rgba {
    if color::is_bright(c) {
        Rgba { r: 0, g: 0, b: 0, a: 255 }
    } else {
        Rgba { r: 255, g: 255, b: 255, a: 255 }
    }
}

fn contrasting_text_color(bg: Rgba) -> (c: Rgba)
    ensures
        c == text_on(bg),
{
    bg.contrasting_text()
}

// Sizes.

/// A reference size in thousandths of a pixel, scaled to the frame width in
/// single precision and rounded to the nearest pixel.
#[verifier::opaque]
pub open spec fn scaled(milli: int, frame_width: int) -> int {
    let v = floats::scaled_size(milli, frame_width);
    if v > i32::MAX {
        i32::MAX as int
    } else {
        v
    }
}

fn scale(milli: u32, frame_width: u32) -> (v: i64)
    ensures
        v == scaled(milli as int, frame_width as int),
        0 <= v <= i32::MAX,
{
    reveal(scaled);
    let v: u64 = floats::scale_size(milli, frame_width);
    if v > 0x7fff_ffff {
        0x7fff_ffff
    } else {
        v as i64
    }
}

/// Estimated width of `chars` characters that are each `percent` hundredths
/// of `size_px` wide, computed in single precision and rounded up.
#[verifier::opaque]
pub open spec fn width(chars: int, size_px: int, percent: int) -> int {
    let v = floats::product_up(chars, size_px, percent);
    if v > u32::MAX {
        u32::MAX as int
    } else {
        v
    }
}

fn width_px(chars: usize, size_px: u32, percent: u32) -> (w: u32)
    requires
        1 <= percent <= 100,
    ensures
        w == width(chars as int, size_px as int, percent as int),
{
    reveal(width);
    let v: u128 = floats::multiply_up(chars as u64, size_px, percent);
    if v > 0xffff_ffff {
        0xffff_ffff
    } else {
        v as u32
    }
}

/// Width estimate for mixed text.
pub fn estimate_text_width(text: &str, size_px: u32) -> (w: u32)
    ensures
        w == width(text@.len() as int, size_px as int, 62),
{
    width_px(text.unicode_len(), size_px, 62)
}

/// Width estimate for bold text, which runs wider.
pub fn estimate_text_width_bold(text: &str, size_px: u32) -> (w: u32)
    ensures
        w == width(text@.len() as int, size_px as int, 70),
{
    width_px(text.unicode_len(), size_px, 70)
}

/// Width estimate for scores, clocks and countdowns.
pub fn estimate_text_width_digits(text: &str, size_px: u32) -> (w: u32)
    ensures
        w == width(text@.len() as int, size_px as int, 65),
{
    width_px(text.unicode_len(), size_px, 65)
}

/// The length of the longest prefix, of at most `n` characters, that fits beside an
/// ellipsis.
pub open spec fn fitting_prefix(n: nat, max_width_px: int, size_px: int) -> nat
    decreases n,
{
    if n == 0 || width(n as int, size_px, 62) + width(1, size_px, 62) <= max_width_px {
        n
    } else {
        fitting_prefix((n - 1) as nat, max_width_px, size_px)
    }
}

/// Text cut to an estimated width: as it is where it fits, else its longest prefix
/// that fits beside an ellipsis, with the ellipsis, and nothing where not even the
/// ellipsis fits.
pub open spec fn truncated(text: Seq<char>, max_width_px: int, size_px: int) -> Seq<char> {
    if width(text.len() as int, size_px, 62) <= max_width_px {
        text
    } else if width(1, size_px, 62) >= max_width_px {
        Seq::empty()
    } else {
        text.take(fitting_prefix(text.len(), max_width_px, size_px) as int).push('…')
    }
}

/// Widths are not negative, and nothing is no width wide.
pub proof fn lemma_width_not_negative(chars: int, size_px: int, percent: int)
    requires
        chars >= 0,
        size_px >= 0,
        percent >= 0,
    ensures
        0 <= width(chars, size_px, percent) <= u32::MAX,
        width(0, size_px, percent) == 0,
{
    reveal(width);
    floats::lemma_product_up_not_negative(chars, size_px, percent);
    floats::lemma_product_up_not_negative(0, size_px, percent);
}

/// A longer text is estimated no narrower.
pub proof fn law_widths_grow(chars: int, more: int, size_px: int, percent: int)
    requires
        0 <= chars <= more,
        size_px >= 0,
        percent >= 1,
    ensures
        width(chars, size_px, percent) <= width(more, size_px, percent),
{
    reveal(width);
    floats::lemma_product_up_grows(chars, more, size_px, percent);
}

proof fn lemma_fitting_prefix(n: nat, k: nat, max_width_px: int, size_px: int)
    requires
        k < n,
        size_px >= 0,
        k == 0 || width(k as int, size_px, 62) + width(1, size_px, 62) <= max_width_px,
        width(k as int + 1, size_px, 62) + width(1, size_px, 62) > max_width_px,
    ensures
        fitting_prefix(n, max_width_px, size_px) == k,
    decreases n,
{
    law_widths_grow(k as int + 1, n as int, size_px, 62);
    if n == k + 1 {
        assert(fitting_prefix(k, max_width_px, size_px) == k);
    } else {
        lemma_fitting_prefix((n - 1) as nat, k, max_width_px, size_px);
    }
}

/// Cut a text so that its estimated width is at most `max_width_px`.
pub fn truncate_for_display(text: &str, max_width_px: u32, size_px: u32) -> (out: String)
    ensures
        out@ == truncated(text@, max_width_px as int, size_px as int),
{
    let n: usize = text.unicode_len();
    if width_px(n, size_px, 62) <= max_width_px {
        return text.to_owned();
    }
    let ellipsis_w: u32 = width_px(1, size_px, 62);
    if ellipsis_w >= max_width_px {
        return String::new();
    }
    let mut k: usize = 0;
    while k < n && width_px(k + 1, size_px, 62) as u64 + ellipsis_w as u64 <= max_width_px as u64
        invariant
            k <= n == text@.len(),
            ellipsis_w == width(1, size_px as int, 62),
            k == 0 || width(k as int, size_px as int, 62) + ellipsis_w <= max_width_px,
        decreases n - k,
    {
        k = k + 1;
    }
    proof {
        lemma_width_not_negative(1, size_px as int, 62);
        if k < n {
            lemma_fitting_prefix(n as nat, k as nat, max_width_px as int, size_px as int);
        }
    }
    let mut out: String = text.substring_char(0, k).to_owned();
    out.push('…');
    assert(out@ =~= truncated(text@, max_width_px as int, size_px as int));
    out
}

/// A text that fits is not cut; what is left of one that is cut fits beside its
/// ellipsis. Together they fit too, unless the width is beyond any frame: from
/// 1572948 pixels on, single precision may estimate more for both than for each.
pub proof fn law_truncation_fits(text: Seq<char>, max_width_px: int, size_px: int)
    requires
        max_width_px >= 0,
        size_px >= 0,
    ensures
        ({
            let cut = truncated(text, max_width_px, size_px);
            let fits = width(text.len() as int, size_px, 62) <= max_width_px;
            &&& fits ==> cut == text
            &&& !fits ==> cut.len() == 0 || (cut.len() <= text.len() && cut.last() == '…'
                && cut.drop_last() == text.take(cut.len() - 1) && (cut.len() > 1 ==> width(
                cut.len() - 1,
                size_px,
                62,
            ) + width(1, size_px, 62) <= max_width_px))
            &&& max_width_px < 1_572_948 ==> width(cut.len() as int, size_px, 62) <= max_width_px
        }),
{
    let cut = truncated(text, max_width_px, size_px);
    lemma_width_not_negative(0, size_px, 62);
    lemma_width_not_negative(1, size_px, 62);
    if width(text.len() as int, size_px, 62) > max_width_px && width(1, size_px, 62)
        < max_width_px {
        let k = fitting_prefix(text.len(), max_width_px, size_px);
        lemma_fitting_prefix_fits(text.len(), max_width_px, size_px);
        assert(cut.drop_last() =~= text.take(k as int));
        if max_width_px < 1_572_948 {
            reveal(width);
            floats::lemma_product_up_not_negative(k as int, size_px, 62);
            floats::lemma_product_up_not_negative(1, size_px, 62);
            floats::lemma_product_up_subadditive(k as int, size_px);
        }
    }
}

proof fn lemma_fitting_prefix_fits(n: nat, max_width_px: int, size_px: int)
    ensures
        fitting_prefix(n, max_width_px, size_px) <= n,
        fitting_prefix(n, max_width_px, size_px) > 0 ==> width(
            fitting_prefix(n, max_width_px, size_px) as int,
            size_px,
            62,
        ) + width(1, size_px, 62) <= max_width_px,
    decreases n,
{
    if n > 0 && width(n as int, size_px, 62) + width(1, size_px, 62) > max_width_px {
        lemma_fitting_prefix_fits((n - 1) as nat, max_width_px, size_px);
    }
}

// Commands.

/// A pixel coordinate, held inside the signed 32-bit range.
pub open spec fn px(v: int) -> int {
    if v < i32::MIN {
        i32::MIN as int
    } else if v > i32::MAX {
        i32::MAX as int
    } else {
        v
    }
}

fn to_px(v: i64) -> (p: i32)
    ensures
        p == px(v as int),
{
    if v < -0x8000_0000 {
        -0x8000_0000
    } else if v > 0x7fff_ffff {
        0x7fff_ffff
    } else {
        v as i32
    }
}

/// Half of a length, rounded toward zero.
pub open spec fn half(v: int) -> int {
    if v >= 0 {
        v / 2
    } else {
        -((-v) / 2)
    }
}

fn half_of(v: i64) -> (h: i64)
    requires
        v > i64::MIN,
    ensures
        h == half(v as int),
        v >= 0 ==> 0 <= h <= v,
        v <= 0 ==> v <= h <= 0,
{
    if v >= 0 {
        v / 2
    } else {
        -((-v) / 2)
    }
}

pub open spec fn fill(x: int, y: int, w: int, h: int, color: Rgba) -> Draw {
    Draw::Fill { x: px(x), y: px(y), width: px(w), height: px(h), color }
}

pub open spec fn text_in(
    x: int,
    y: int,
    text: Seq<char>,
    bold: bool,
    size_px: int,
    color: Rgba,
    params: &LayoutParams,
) -> Draw {
    Draw::Text {
        x: px(x),
        y: px(y),
        text,
        font_id: if bold {
            params.bold_font
        } else {
            params.regular_font
        },
        size_px,
        style: if bold {
            FontStyle::Bold
        } else {
            FontStyle::Regular
        },
        color,
    }
}

fn push_fill(cmds: &mut Vec<OverlayCommand>, x: i64, y: i64, w: i64, h: i64, color: Rgba)
    ensures
        commands::drawn(final(cmds)@) == commands::drawn(old(cmds)@).push(
            fill(x as int, y as int, w as int, h as int, color),
        ),
{
    cmds.push(
        OverlayCommand::FillRect {
            x: to_px(x),
            y: to_px(y),
            width: to_px(w),
            height: to_px(h),
            color,
        },
    );
    assert(commands::drawn(cmds@) =~= commands::drawn(old(cmds)@).push(
        fill(x as int, y as int, w as int, h as int, color),
    ));
}

fn push_text(
    cmds: &mut Vec<OverlayCommand>,
    x: i64,
    y: i64,
    text: String,
    bold: bool,
    size_px: u32,
    color: Rgba,
    params: &LayoutParams,
)
    ensures
        commands::drawn(final(cmds)@) == commands::drawn(old(cmds)@).push(
            text_in(x as int, y as int, text@, bold, size_px as int, color, params),
        ),
{
    cmds.push(
        OverlayCommand::DrawText {
            x: to_px(x),
            y: to_px(y),
            text,
            font_id: if bold {
                params.bold_font
            } else {
                params.regular_font
            },
            size_px,
            style: if bold {
                FontStyle::Bold
            } else {
                FontStyle::Regular
            },
            color,
        },
    );
    assert(commands::drawn(cmds@) =~= commands::drawn(old(cmds)@).push(
        text_in(x as int, y as int, text@, bold, size_px as int, color, params),
    ));
}

/// Whether a goalkeeper colour shows beside the team colour.
pub open spec fn gk_strip_shown(gk: Option<Rgba>, field: Option<Rgba>) -> bool {
    gk is Some && gk != field
}

fn gk_strip_distinct(gk: Option<Rgba>, field: Option<Rgba>) -> (r: bool)
    ensures
        r == gk_strip_shown(gk, field),
{
    match (gk, field) {
        (Some(g), Some(f)) => g != f,
        (Some(_), None) => true,
        _ => false,
    }
}

// The centre scoreboard.

/// Geometry of the centre scoreboard, in pixels.
pub struct Board {
    pub row_h: int,
    pub row_gap: int,
    /// Lift of a baseline above the optical centre of its row.
    pub nudge: int,
    /// Gap between a text and the edge of its cell.
    pub text_pad: int,
    pub team_color_w: int,
    pub gk_strip_w: int,
    pub gk_strip_gap: int,
    pub font_name: int,
    pub font_score: int,
    pub font_phase: int,
    pub font_state: int,
    pub clock_box_w: int,
    pub score_box_w: int,
    /// Room taken by the goalkeeper strips, 0 where none shows.
    pub home_gk_extra: int,
    pub away_gk_extra: int,
    pub name_w: int,
    pub total_w: int,
    pub sb_x: int,
    pub sb_y: int,
}

pub open spec fn max_int(a: int, b: int) -> int {
    if a >= b {
        a
    } else {
        b
    }
}

pub open spec fn min_int(a: int, b: int) -> int {
    if a <= b {
        a
    } else {
        b
    }
}

/// The scoreboard is centred above the bottom margin. Score and clock cells
/// hold their widest text, `99` and `-00:00`. The name cells hold the longer
/// name, up to what the frame leaves for them.
pub open spec fn board(state: &ScoreboardState, params: &LayoutParams) -> Board {
    let w = params.frame_width as int;
    let margin = scaled(16_000, w);
    let sb_pad = scaled(10_000, w);
    let row_h = scaled(params.sizes.sb_row_h as int, w);
    let row_gap = scaled(2_000, w);
    let text_pad = scaled(18_000, w);
    let team_color_w = scaled(16_000, w);
    let gk_strip_w = scaled(10_000, w);
    let gk_strip_gap = scaled(4_000, w);
    let font_name = scaled(params.sizes.font_sb_name as int, w);
    let font_score = scaled(params.sizes.font_sb_score as int, w);
    let clock_box_w = max_int(width(6, font_score, 65) + 2 * text_pad, scaled(140_000, w));
    let score_box_w = max_int(width(2, font_score, 65) + 2 * text_pad, scaled(64_000, w));
    let home_gk_extra = if gk_strip_shown(state.home_team_goalkeeper_color, state.home_team_color) {
        gk_strip_w + gk_strip_gap
    } else {
        0
    };
    let away_gk_extra = if gk_strip_shown(state.away_team_goalkeeper_color, state.away_team_color) {
        gk_strip_w + gk_strip_gap
    } else {
        0
    };
    let max_name_w = max_int(
        half(w - 2 * margin - 4 * sb_pad) - 2 * team_color_w - home_gk_extra - away_gk_extra - 2
            * score_box_w - clock_box_w,
        scaled(120_000, w),
    );
    let raw_name_w = max_int(
        width(state.home_team_name@.len() as int, font_name, 70),
        width(state.away_team_name@.len() as int, font_name, 70),
    );
    let name_w = min_int(raw_name_w + 2 * text_pad, max_name_w);
    let total_w = 2 * team_color_w + home_gk_extra + away_gk_extra + 2 * name_w + 2 * score_box_w
        + clock_box_w;
    Board {
        row_h,
        row_gap,
        nudge: scaled(2_000, w),
        text_pad,
        team_color_w,
        gk_strip_w,
        gk_strip_gap,
        font_name,
        font_score,
        font_phase: scaled(params.sizes.font_sb_phase as int, w),
        font_state: scaled(params.sizes.font_sb_state as int, w),
        clock_box_w,
        score_box_w,
        home_gk_extra,
        away_gk_extra,
        name_w,
        total_w,
        sb_x: half(w - total_w),
        sb_y: params.frame_height - margin - (3 * row_h + 2 * row_gap),
    }
}

impl Board {
    pub open spec fn row2_y(&self) -> int {
        self.sb_y + self.row_h + self.row_gap
    }

    pub open spec fn row3_y(&self) -> int {
        self.sb_y + 2 * self.row_h + 2 * self.row_gap
    }

    pub open spec fn name1_x(&self) -> int {
        self.sb_x + self.team_color_w + self.home_gk_extra
    }

    pub open spec fn score1_x(&self) -> int {
        self.name1_x() + self.name_w
    }

    pub open spec fn clock_x(&self) -> int {
        self.score1_x() + self.score_box_w
    }

    pub open spec fn score2_x(&self) -> int {
        self.clock_x() + self.clock_box_w
    }

    pub open spec fn name2_x(&self) -> int {
        self.score2_x() + self.score_box_w
    }

    /// Baseline of a text centred in the row that starts at `row_y`.
    pub open spec fn baseline(&self, row_y: int, font: int) -> int {
        row_y + (self.row_h + font) / 2 - self.nudge
    }
}

/// [`Board`], as the layout computes it.
struct Grid {
    row_h: i64,
    row_gap: i64,
    nudge: i64,
    text_pad: i64,
    team_color_w: i64,
    gk_strip_w: i64,
    gk_strip_gap: i64,
    font_name: u32,
    font_score: u32,
    font_phase: u32,
    font_state: u32,
    clock_box_w: i64,
    score_box_w: i64,
    home_gk_extra: i64,
    away_gk_extra: i64,
    name_w: i64,
    total_w: i64,
    sb_x: i64,
    sb_y: i64,
}

impl View for Grid {
    type V = Board;

    closed spec fn view(&self) -> Board {
        Board {
            row_h: self.row_h as int,
            row_gap: self.row_gap as int,
            nudge: self.nudge as int,
            text_pad: self.text_pad as int,
            team_color_w: self.team_color_w as int,
            gk_strip_w: self.gk_strip_w as int,
            gk_strip_gap: self.gk_strip_gap as int,
            font_name: self.font_name as int,
            font_score: self.font_score as int,
            font_phase: self.font_phase as int,
            font_state: self.font_state as int,
            clock_box_w: self.clock_box_w as int,
            score_box_w: self.score_box_w as int,
            home_gk_extra: self.home_gk_extra as int,
            away_gk_extra: self.away_gk_extra as int,
            name_w: self.name_w as int,
            total_w: self.total_w as int,
            sb_x: self.sb_x as int,
            sb_y: self.sb_y as int,
        }
    }
}

impl Grid {
    /// Every length is far from the limits of 64-bit arithmetic.
    spec fn small(&self) -> bool {
        let m = 0x8000_0000_0000int;
        &&& 0 <= self.row_h <= i32::MAX
        &&& 0 <= self.row_gap <= i32::MAX
        &&& 0 <= self.nudge <= i32::MAX
        &&& 0 <= self.text_pad <= i32::MAX
        &&& 0 <= self.team_color_w <= i32::MAX
        &&& 0 <= self.gk_strip_w <= i32::MAX
        &&& 0 <= self.gk_strip_gap <= i32::MAX
        &&& self.font_name <= i32::MAX
        &&& self.font_score <= i32::MAX
        &&& self.font_phase <= i32::MAX
        &&& self.font_state <= i32::MAX
        &&& 0 <= self.clock_box_w <= m
        &&& 0 <= self.score_box_w <= m
        &&& 0 <= self.home_gk_extra <= m
        &&& 0 <= self.away_gk_extra <= m
        &&& 0 <= self.name_w <= u32::MAX + 2 * self.text_pad
        &&& 0 <= self.total_w <= 9 * m
        &&& -9 * m <= self.sb_x <= m
        &&& -m <= self.sb_y <= m
    }
}

fn max_i64(a: i64, b: i64) -> (m: i64)
    ensures
        m == max_int(a as int, b as int),
{
    if a >= b {
        a
    } else {
        b
    }
}

/// Width of a cell that holds `chars` digits with padding, at least `min_w`.
fn digit_box(chars: usize, font: u32, pad: i64, min_w: i64) -> (w: i64)
    requires
        0 <= pad <= i32::MAX,
        0 <= min_w <= i32::MAX,
    ensures
        w == max_int(width(chars as int, font as int, 65) + 2 * pad, min_w as int),
        0 <= w <= 0x2_0000_0000,
{
    max_i64(width_px(chars, font, 65) as i64 + 2 * pad, min_w)
}

fn gk_extra(gk: Option<Rgba>, field: Option<Rgba>, strip: i64, gap: i64) -> (w: i64)
    requires
        0 <= strip <= i32::MAX,
        0 <= gap <= i32::MAX,
    ensures
        w == (if gk_strip_shown(gk, field) {
            strip + gap
        } else {
            0
        }),
        0 <= w <= 0x1_0000_0000,
{
    if gk_strip_distinct(gk, field) {
        strip + gap
    } else {
        0
    }
}

/// Width of a name cell: the longer name with padding, up to `max_w`.
fn name_cell(state: &ScoreboardState, font: u32, pad: i64, max_w: i64) -> (w: i64)
    requires
        0 <= pad <= i32::MAX,
        0 <= max_w,
    ensures
        w == min_int(
            max_int(
                width(state.home_team_name@.len() as int, font as int, 70),
                width(state.away_team_name@.len() as int, font as int, 70),
            ) + 2 * pad,
            max_w as int,
        ),
        0 <= w <= u32::MAX + 2 * pad,
{
    let home_w: u32 = estimate_text_width_bold(state.home_team_name.as_str(), font);
    let away_w: u32 = estimate_text_width_bold(state.away_team_name.as_str(), font);
    let wanted: i64 = max_i64(home_w as i64, away_w as i64) + 2 * pad;
    if wanted <= max_w {
        wanted
    } else {
        max_w
    }
}

fn measure(state: &ScoreboardState, params: &LayoutParams) -> (g: Grid)
    requires
        params.wf(),
    ensures
        g@ == board(state, params),
        g.small(),
{
    let w: u32 = params.frame_width;
    let margin: i64 = scale(16_000, w);
    let sb_pad: i64 = scale(10_000, w);
    let row_h: i64 = scale(params.sizes.sb_row_h, w);
    let row_gap: i64 = scale(2_000, w);
    let text_pad: i64 = scale(18_000, w);
    let team_color_w: i64 = scale(16_000, w);
    let gk_strip_w: i64 = scale(10_000, w);
    let gk_strip_gap: i64 = scale(4_000, w);
    let font_name: u32 = scale(params.sizes.font_sb_name, w) as u32;
    let font_score: u32 = scale(params.sizes.font_sb_score, w) as u32;
    let clock_box_w: i64 = digit_box(6, font_score, text_pad, scale(140_000, w));
    let score_box_w: i64 = digit_box(2, font_score, text_pad, scale(64_000, w));
    let home_gk_extra: i64 = gk_extra(
        state.home_team_goalkeeper_color,
        state.home_team_color,
        gk_strip_w,
        gk_strip_gap,
    );
    let away_gk_extra: i64 = gk_extra(
        state.away_team_goalkeeper_color,
        state.away_team_color,
        gk_strip_w,
        gk_strip_gap,
    );
    let half_w: i64 = half_of(w as i64 - 2 * margin - 4 * sb_pad);
    let left_for_names: i64 = half_w - 2 * team_color_w - home_gk_extra - away_gk_extra - 2
        * score_box_w - clock_box_w;
    let max_name_w: i64 = max_i64(left_for_names, scale(120_000, w));
    let name_w: i64 = name_cell(state, font_name, text_pad, max_name_w);
    let total_w: i64 = 2 * team_color_w + home_gk_extra + away_gk_extra + 2 * name_w + 2
        * score_box_w + clock_box_w;
    Grid {
        row_h,
        row_gap,
        nudge: scale(2_000, w),
        text_pad,
        team_color_w,
        gk_strip_w,
        gk_strip_gap,
        font_name,
        font_score,
        font_phase: scale(params.sizes.font_sb_phase, w) as u32,
        font_state: scale(params.sizes.font_sb_state, w) as u32,
        clock_box_w,
        score_box_w,
        home_gk_extra,
        away_gk_extra,
        name_w,
        total_w,
        sb_x: half_of(w as i64 - total_w),
        sb_y: params.frame_height as i64 - margin - (3 * row_h + 2 * row_gap),
    }
}

/// Row 2 from left to right: team colour, goalkeeper strip, name, score,
/// clock, score, name, goalkeeper strip, team colour.
pub open spec fn row2_backings(
    b: Board,
    state: &ScoreboardState,
    home: Rgba,
    away: Rgba,
) -> Seq<Draw> {
    let y = b.row2_y();
    let right = b.sb_x + b.total_w;
    seq![fill(b.sb_x, y, b.team_color_w, b.row_h, home)] + (match state.home_team_goalkeeper_color {
        Some(gk) if b.home_gk_extra > 0 => seq![
            fill(b.sb_x + b.team_color_w + b.gk_strip_gap, y, b.gk_strip_w, b.row_h, gk),
        ],
        _ => Seq::empty(),
    }) + seq![
        fill(b.name1_x(), y, b.name_w, b.row_h, label_bg()),
        fill(b.score1_x(), y, b.score_box_w, b.row_h, home),
        fill(b.clock_x(), y, b.clock_box_w, b.row_h, label_bg()),
        fill(b.score2_x(), y, b.score_box_w, b.row_h, away),
        fill(b.name2_x(), y, b.name_w, b.row_h, label_bg()),
    ] + (match state.away_team_goalkeeper_color {
        Some(gk) if b.away_gk_extra > 0 => seq![
            fill(
                right - b.team_color_w - b.gk_strip_gap - b.gk_strip_w,
                y,
                b.gk_strip_w,
                b.row_h,
                gk,
            ),
        ],
        _ => Seq::empty(),
    }) + seq![fill(right - b.team_color_w, y, b.team_color_w, b.row_h, away)]
}

fn push_row2_backings(
    cmds: &mut Vec<OverlayCommand>,
    g: &Grid,
    state: &ScoreboardState,
    home: Rgba,
    away: Rgba,
)
    requires
        g.small(),
    ensures
        commands::drawn(final(cmds)@) == commands::drawn(old(cmds)@) + row2_backings(
            g@,
            state,
            home,
            away,
        ),
{
    let label = Rgba::opaque(217, 217, 217);
    let y: i64 = g.sb_y + g.row_h + g.row_gap;
    let name1_x: i64 = g.sb_x + g.team_color_w + g.home_gk_extra;
    let score1_x: i64 = name1_x + g.name_w;
    let clock_x: i64 = score1_x + g.score_box_w;
    let score2_x: i64 = clock_x + g.clock_box_w;
    let name2_x: i64 = score2_x + g.score_box_w;
    let right: i64 = g.sb_x + g.total_w;
    push_fill(cmds, g.sb_x, y, g.team_color_w, g.row_h, home);
    match state.home_team_goalkeeper_color {
        Some(gk) if g.home_gk_extra > 0 => {
            push_fill(
                cmds,
                g.sb_x + g.team_color_w + g.gk_strip_gap,
                y,
                g.gk_strip_w,
                g.row_h,
                gk,
            );
        },
        _ => {},
    }
    push_fill(cmds, name1_x, y, g.name_w, g.row_h, label);
    push_fill(cmds, score1_x, y, g.score_box_w, g.row_h, home);
    push_fill(cmds, clock_x, y, g.clock_box_w, g.row_h, label);
    push_fill(cmds, score2_x, y, g.score_box_w, g.row_h, away);
    push_fill(cmds, name2_x, y, g.name_w, g.row_h, label);
    match state.away_team_goalkeeper_color {
        Some(gk) if g.away_gk_extra > 0 => {
            push_fill(
                cmds,
                right - g.team_color_w - g.gk_strip_gap - g.gk_strip_w,
                y,
                g.gk_strip_w,
                g.row_h,
                gk,
            );
        },
        _ => {},
    }
    push_fill(cmds, right - g.team_color_w, y, g.team_color_w, g.row_h, away);
    assert(commands::drawn(cmds@) =~= commands::drawn(old(cmds)@) + row2_backings(
        g@,
        state,
        home,
        away,
    ));
}

/// A text on a light grey backing that is centred over the scoreboard.
pub open spec fn centred_label(
    b: Board,
    text: Seq<char>,
    text_w: int,
    row_y: int,
    bold: bool,
    font: int,
    params: &LayoutParams,
) -> Seq<Draw> {
    if text.len() == 0 {
        Seq::empty()
    } else {
        let x = b.sb_x + half(b.total_w - text_w - 2 * b.text_pad);
        seq![
            fill(x, row_y, text_w + 2 * b.text_pad, b.row_h, label_bg()),
            text_in(
                x + b.text_pad,
                b.baseline(row_y, font),
                text,
                bold,
                font,
                text_dark(),
                params,
            ),
        ]
    }
}

fn push_centred_label(
    cmds: &mut Vec<OverlayCommand>,
    g: &Grid,
    text: &String,
    text_w: u32,
    row_y: i64,
    bold: bool,
    font: u32,
    params: &LayoutParams,
)
    requires
        g.small(),
        font <= i32::MAX,
        -0x1_0000_0000_0000 <= row_y <= 0x1_0000_0000_0000,
    ensures
        commands::drawn(final(cmds)@) == commands::drawn(old(cmds)@) + centred_label(
            g@,
            text@,
            text_w as int,
            row_y as int,
            bold,
            font as int,
            params,
        ),
{
    if !text.as_str().is_empty() {
        let w: i64 = text_w as i64;
        let x: i64 = g.sb_x + half_of(g.total_w - w - 2 * g.text_pad);
        let baseline: i64 = row_y + (g.row_h + font as i64) / 2 - g.nudge;
        push_fill(cmds, x, row_y, w + 2 * g.text_pad, g.row_h, Rgba::opaque(217, 217, 217));
        push_text(
            cmds,
            x + g.text_pad,
            baseline,
            text.clone(),
            bold,
            font,
            Rgba::opaque(12, 12, 12),
            params,
        );
    }
    assert(commands::drawn(cmds@) =~= commands::drawn(old(cmds)@) + centred_label(
        g@,
        text@,
        text_w as int,
        row_y as int,
        bold,
        font as int,
        params,
    ));
}

/// Row 1 beside the phase label: one dot per shot taken during a shoot-out,
/// else the message budget. `center_x` is the middle of the name cell below.
pub open spec fn row1_side(
    b: Board,
    shots: Option<(u32, u32, u32)>,
    message_budget: u32,
    team_color: Rgba,
    center_x: int,
    params: &LayoutParams,
) -> Seq<Draw> {
    match shots {
        Some((mine, mask, theirs)) => shot_dots(
            mine as int,
            mask,
            theirs as int,
            team_color,
            center_x,
            b.baseline(b.sb_y, b.font_phase),
            b.nudge,
            params,
        ),
        None => if message_budget == 0 {
            Seq::empty()
        } else {
            let label = text::decimal(message_budget as nat);
            let w = width(label.len() as int, b.font_phase, 65);
            let x = center_x - (w + 2 * b.text_pad) / 2;
            seq![
                fill(x, b.sb_y, w + 2 * b.text_pad, b.row_h, label_bg()),
                text_in(
                    x + b.text_pad,
                    b.baseline(b.sb_y, b.font_phase),
                    label,
                    true,
                    b.font_phase,
                    text_dark(),
                    params,
                ),
            ]
        },
    }
}

/// Whether shot `i` was a success.
pub open spec fn shot_made(mask: u32, i: int) -> bool {
    (mask >> (i as u32)) & 1u32 == 1u32
}

/// One dot per shot taken, in the team colour where it was a success. The
/// row is centred as if both teams had taken as many shots as the leader.
pub open spec fn shot_dots(
    mine: int,
    mask: u32,
    theirs: int,
    team_color: Rgba,
    center_x: int,
    baseline_y: int,
    nudge: int,
    params: &LayoutParams,
) -> Seq<Draw> {
    let d = 2 * scaled(4_000, params.frame_width as int);
    let gap = scaled(8_000, params.frame_width as int);
    let total = max_int(mine, theirs);
    let row_w = total * d + (total - 1) * gap;
    Seq::new(
        mine as nat,
        |i: int|
            fill(
                center_x - row_w / 2 + i * (d + gap),
                baseline_y - d - nudge,
                d,
                d,
                if shot_made(mask, i) {
                    team_color
                } else {
                    mid_grey()
                },
            ),
    )
}

fn push_shot_dots(
    cmds: &mut Vec<OverlayCommand>,
    mine: u32,
    mask: u32,
    theirs: u32,
    team_color: Rgba,
    center_x: i64,
    baseline_y: i64,
    nudge: i64,
    params: &LayoutParams,
)
    requires
        mine <= 32,
        theirs <= 32,
        -0x10_0000_0000_0000 <= center_x <= 0x10_0000_0000_0000,
        -0x10_0000_0000_0000 <= baseline_y <= 0x10_0000_0000_0000,
        0 <= nudge <= i32::MAX,
    ensures
        commands::drawn(final(cmds)@) == commands::drawn(old(cmds)@) + shot_dots(
            mine as int,
            mask,
            theirs as int,
            team_color,
            center_x as int,
            baseline_y as int,
            nudge as int,
            params,
        ),
{
    let ghost dots = shot_dots(
        mine as int,
        mask,
        theirs as int,
        team_color,
        center_x as int,
        baseline_y as int,
        nudge as int,
        params,
    );
    if mine == 0 {
        assert(commands::drawn(cmds@) =~= commands::drawn(old(cmds)@) + dots);
        return;
    }
    let total: i64 = if mine >= theirs {
        mine as i64
    } else {
        theirs as i64
    };
    let d: i64 = 2 * scale(4_000, params.frame_width);
    let gap: i64 = scale(8_000, params.frame_width);
    let step: i64 = d + gap;
    assert(0 <= total * d <= 32 * d) by (nonlinear_arith)
        requires
            0 <= total <= 32,
            d >= 0,
    ;
    assert(0 <= (total - 1) * gap <= 32 * gap) by (nonlinear_arith)
        requires
            1 <= total <= 32,
            gap >= 0,
    ;
    let row_w: i64 = total * d + (total - 1) * gap;
    let left: i64 = center_x - row_w / 2;
    let top_y: i64 = baseline_y - d - nudge;
    let mut x: i64 = left;
    let mut i: u32 = 0;
    while i < mine
        invariant
            i <= mine <= 32,
            step == d + gap,
            0 <= d <= 2 * i32::MAX,
            0 <= gap <= i32::MAX,
            -0x20_0000_0000_0000 <= left <= 0x20_0000_0000_0000,
            -0x20_0000_0000_0000 <= top_y <= 0x20_0000_0000_0000,
            x == left + i * step,
            0 <= i * step <= 32 * step,
            dots.len() == mine,
            forall|k: int|
                0 <= k < mine ==> #[trigger] dots[k] == fill(
                    left + k * step,
                    top_y as int,
                    d as int,
                    d as int,
                    if shot_made(mask, k) {
                        team_color
                    } else {
                        mid_grey()
                    },
                ),
            commands::drawn(cmds@) == commands::drawn(old(cmds)@) + dots.take(i as int),
        decreases mine - i,
    {
        let made: bool = (mask >> i) & 1u32 == 1u32;
        let color: Rgba = if made {
            team_color
        } else {
            Rgba::opaque(102, 102, 102)
        };
        push_fill(cmds, x, top_y, d, d, color);
        proof {
            assert((i + 1) * step == i * step + step && 0 <= (i + 1) * step <= 32 * step)
                by (nonlinear_arith)
                requires
                    0 <= i < 32,
                    step >= 0,
            ;
            assert(dots.take(i + 1) =~= dots.take(i as int).push(dots[i as int]));
            assert(commands::drawn(cmds@) =~= commands::drawn(old(cmds)@) + dots.take(i + 1));
        }
        x = x + step;
        i = i + 1;
    }
    assert(dots.take(mine as int) =~= dots);
}

fn push_row1_side(
    cmds: &mut Vec<OverlayCommand>,
    g: &Grid,
    shots: Option<(u32, u32, u32)>,
    message_budget: u32,
    team_color: Rgba,
    center_x: i64,
    params: &LayoutParams,
)
    requires
        g.small(),
        shots matches Some(t) ==> t.0 <= 32 && t.2 <= 32,
        -0x8_0000_0000_0000 <= center_x <= 0x8_0000_0000_0000,
    ensures
        commands::drawn(final(cmds)@) == commands::drawn(old(cmds)@) + row1_side(
            g@,
            shots,
            message_budget,
            team_color,
            center_x as int,
            params,
        ),
{
    let baseline: i64 = g.sb_y + (g.row_h + g.font_phase as i64) / 2 - g.nudge;
    match shots {
        Some((mine, mask, theirs)) => {
            push_shot_dots(
                cmds,
                mine,
                mask,
                theirs,
                team_color,
                center_x,
                baseline,
                g.nudge,
                params,
            );
        },
        None => {
            if message_budget != 0 {
                let label: String = text::decimal_string(message_budget as u64);
                let w: i64 = estimate_text_width_digits(label.as_str(), g.font_phase) as i64;
                let x: i64 = center_x - (w + 2 * g.text_pad) / 2;
                push_fill(
                    cmds,
                    x,
                    g.sb_y,
                    w + 2 * g.text_pad,
                    g.row_h,
                    Rgba::opaque(217, 217, 217),
                );
                push_text(
                    cmds,
                    x + g.text_pad,
                    baseline,
                    label,
                    true,
                    g.font_phase,
                    Rgba::opaque(12, 12, 12),
                    params,
                );
            }
            assert(commands::drawn(cmds@) =~= commands::drawn(old(cmds)@) + row1_side(
                g@,
                shots,
                message_budget,
                team_color,
                center_x as int,
                params,
            ));
        },
    }
}

/// Row 2 texts: home name against its score box, home score, clock, away
/// score, away name against its score box.
pub open spec fn row2_texts(
    b: Board,
    state: &ScoreboardState,
    home: Rgba,
    away: Rgba,
    params: &LayoutParams,
) -> Seq<Draw> {
    let name_y = b.baseline(b.row2_y(), b.font_name);
    let score_y = b.baseline(b.row2_y(), b.font_score);
    let name_room = max_int(b.name_w - 2 * b.text_pad, 0);
    let home_name = truncated(state.home_team_name@, name_room, b.font_name);
    let away_name = truncated(state.away_team_name@, name_room, b.font_name);
    let home_score = text::decimal(state.home_score as nat);
    let away_score = text::decimal(state.away_score as nat);
    let clock = state.game_clock_text@;
    seq![
        text_in(
            b.score1_x() - width(home_name.len() as int, b.font_name, 70) - b.text_pad,
            name_y,
            home_name,
            true,
            b.font_name,
            text_dark(),
            params,
        ),
        text_in(
            b.score1_x() + half(b.score_box_w - width(home_score.len() as int, b.font_score, 65)),
            score_y,
            home_score,
            true,
            b.font_score,
            text_on(home),
            params,
        ),
    ] + (if clock.len() == 0 {
        Seq::empty()
    } else {
        seq![
            text_in(
                b.clock_x() + half(b.clock_box_w - width(clock.len() as int, b.font_score, 65)),
                score_y,
                clock,
                true,
                b.font_score,
                if state.clock_stopped {
                    mid_grey()
                } else {
                    text_dark()
                },
                params,
            ),
        ]
    }) + seq![
        text_in(
            b.score2_x() + half(b.score_box_w - width(away_score.len() as int, b.font_score, 65)),
            score_y,
            away_score,
            true,
            b.font_score,
            text_on(away),
            params,
        ),
        text_in(
            b.name2_x() + b.text_pad,
            name_y,
            away_name,
            true,
            b.font_name,
            text_dark(),
            params,
        ),
    ]
}

fn push_row2_texts(
    cmds: &mut Vec<OverlayCommand>,
    g: &Grid,
    state: &ScoreboardState,
    home: Rgba,
    away: Rgba,
    params: &LayoutParams,
)
    requires
        g.small(),
    ensures
        commands::drawn(final(cmds)@) == commands::drawn(old(cmds)@) + row2_texts(
            g@,
            state,
            home,
            away,
            params,
        ),
{
    let dark = Rgba::opaque(12, 12, 12);
    let row2_y: i64 = g.sb_y + g.row_h + g.row_gap;
    let name_y: i64 = row2_y + (g.row_h + g.font_name as i64) / 2 - g.nudge;
    let score_y: i64 = row2_y + (g.row_h + g.font_score as i64) / 2 - g.nudge;
    let score1_x: i64 = g.sb_x + g.team_color_w + g.home_gk_extra + g.name_w;
    let clock_x: i64 = score1_x + g.score_box_w;
    let score2_x: i64 = clock_x + g.clock_box_w;
    let name2_x: i64 = score2_x + g.score_box_w;
    let name_room: u32 = max_i64(g.name_w - 2 * g.text_pad, 0) as u32;

    let home_name: String = truncate_for_display(
        state.home_team_name.as_str(),
        name_room,
        g.font_name,
    );
    let home_name_w: i64 = estimate_text_width_bold(home_name.as_str(), g.font_name) as i64;
    push_text(
        cmds,
        score1_x - home_name_w - g.text_pad,
        name_y,
        home_name,
        true,
        g.font_name,
        dark,
        params,
    );

    let home_score: String = text::decimal_string(state.home_score as u64);
    let home_score_w: i64 = estimate_text_width_digits(home_score.as_str(), g.font_score) as i64;
    push_text(
        cmds,
        score1_x + half_of(g.score_box_w - home_score_w),
        score_y,
        home_score,
        true,
        g.font_score,
        contrasting_text_color(home),
        params,
    );

    if !state.game_clock_text.as_str().is_empty() {
        let clock_w: i64 = estimate_text_width_digits(
            state.game_clock_text.as_str(),
            g.font_score,
        ) as i64;
        let clock_color: Rgba = if state.clock_stopped {
            Rgba::opaque(102, 102, 102)
        } else {
            dark
        };
        push_text(
            cmds,
            clock_x + half_of(g.clock_box_w - clock_w),
            score_y,
            state.game_clock_text.clone(),
            true,
            g.font_score,
            clock_color,
            params,
        );
    }

    let away_score: String = text::decimal_string(state.away_score as u64);
    let away_score_w: i64 = estimate_text_width_digits(away_score.as_str(), g.font_score) as i64;
    push_text(
        cmds,
        score2_x + half_of(g.score_box_w - away_score_w),
        score_y,
        away_score,
        true,
        g.font_score,
        contrasting_text_color(away),
        params,
    );

    let away_name: String = truncate_for_display(
        state.away_team_name.as_str(),
        name_room,
        g.font_name,
    );
    push_text(cmds, name2_x + g.text_pad, name_y, away_name, true, g.font_name, dark, params);
    assert(commands::drawn(cmds@) =~= commands::drawn(old(cmds)@) + row2_texts(
        g@,
        state,
        home,
        away,
        params,
    ));
}

/// The shots of one team: its own count and mask, and the other's count.
pub open spec fn shots_of(state: &ScoreboardState, home: bool) -> Option<(u32, u32, u32)> {
    match state.shootout {
        Some(so) => Some(
            if home {
                (so.home_penalty_shot, so.home_single_shots, so.away_penalty_shot)
            } else {
                (so.away_penalty_shot, so.away_single_shots, so.home_penalty_shot)
            },
        ),
        None => None,
    }
}

fn team_shots(state: &ScoreboardState, home: bool) -> (r: Option<(u32, u32, u32)>)
    ensures
        r == shots_of(state, home),
{
    match &state.shootout {
        Some(so) => Some(
            if home {
                (so.home_penalty_shot, so.home_single_shots, so.away_penalty_shot)
            } else {
                (so.away_penalty_shot, so.away_single_shots, so.home_penalty_shot)
            },
        ),
        None => None,
    }
}

/// The centre scoreboard: the backings of row 2, then row 1, then the texts
/// of row 2, then row 3.
pub open spec fn center_board(state: &ScoreboardState, params: &LayoutParams) -> Seq<Draw> {
    let b = board(state, params);
    let home = or_color(state.home_team_color, default_home());
    let away = or_color(state.away_team_color, default_away());
    row2_backings(b, state, home, away) + centred_label(
        b,
        state.phase_text@,
        width(state.phase_text@.len() as int, b.font_phase, 70),
        b.sb_y,
        true,
        b.font_phase,
        params,
    ) + row1_side(
        b,
        shots_of(state, true),
        state.home_message_budget,
        home,
        b.name1_x() + b.name_w / 2,
        params,
    ) + row1_side(
        b,
        shots_of(state, false),
        state.away_message_budget,
        away,
        b.name2_x() + b.name_w / 2,
        params,
    ) + row2_texts(b, state, home, away, params) + centred_label(
        b,
        state.state_text@,
        width(state.state_text@.len() as int, b.font_state, 62),
        b.row3_y(),
        false,
        b.font_state,
        params,
    )
}

proof fn lemma_concat(
    s: Seq<Draw>,
    a: Seq<Draw>,
    b: Seq<Draw>,
    c: Seq<Draw>,
    d: Seq<Draw>,
    e: Seq<Draw>,
    f: Seq<Draw>,
)
    ensures
        s + a + b + c + d + e + f == s + (a + b + c + d + e + f),
{
    assert(s + a + b + c + d + e + f =~= s + (a + b + c + d + e + f));
}

fn push_scoreboard(cmds: &mut Vec<OverlayCommand>, state: &ScoreboardState, params: &LayoutParams)
    requires
        state.wf(),
        params.wf(),
    ensures
        commands::drawn(final(cmds)@) == commands::drawn(old(cmds)@) + center_board(state, params),
{
    let g: Grid = measure(state, params);
    let home: Rgba = match state.home_team_color {
        Some(c) => c,
        None => Rgba::opaque(217, 25, 25),
    };
    let away: Rgba = match state.away_team_color {
        Some(c) => c,
        None => Rgba::opaque(25, 50, 217),
    };
    let name1_x: i64 = g.sb_x + g.team_color_w + g.home_gk_extra;
    let name2_x: i64 = name1_x + g.name_w + g.score_box_w + g.clock_box_w + g.score_box_w;
    let row3_y: i64 = g.sb_y + 2 * g.row_h + 2 * g.row_gap;

    push_row2_backings(cmds, &g, state, home, away);
    let phase_w: u32 = estimate_text_width_bold(state.phase_text.as_str(), g.font_phase);
    push_centred_label(cmds, &g, &state.phase_text, phase_w, g.sb_y, true, g.font_phase, params);
    push_row1_side(
        cmds,
        &g,
        team_shots(state, true),
        state.home_message_budget,
        home,
        name1_x + g.name_w / 2,
        params,
    );
    push_row1_side(
        cmds,
        &g,
        team_shots(state, false),
        state.away_message_budget,
        away,
        name2_x + g.name_w / 2,
        params,
    );
    push_row2_texts(cmds, &g, state, home, away, params);
    let state_w: u32 = estimate_text_width(state.state_text.as_str(), g.font_state);
    push_centred_label(cmds, &g, &state.state_text, state_w, row3_y, false, g.font_state, params);
    proof {
        let b = g@;
        lemma_concat(
            commands::drawn(old(cmds)@),
            row2_backings(b, state, home, away),
            centred_label(b, state.phase_text@, phase_w as int, b.sb_y, true, b.font_phase, params),
            row1_side(
                b,
                shots_of(state, true),
                state.home_message_budget,
                home,
                b.name1_x() + b.name_w / 2,
                params,
            ),
            row1_side(
                b,
                shots_of(state, false),
                state.away_message_budget,
                away,
                b.name2_x() + b.name_w / 2,
                params,
            ),
            row2_texts(b, state, home, away, params),
            centred_label(
                b,
                state.state_text@,
                state_w as int,
                b.row3_y(),
                false,
                b.font_state,
                params,
            ),
        );
    }
}

// Penalty columns.

/// Geometry of a penalty tile, in pixels.
pub struct Tile {
    pub tile_w: int,
    pub tile_h: int,
    pub gap: int,
    pub row_pad: int,
    pub font_num: int,
    pub font_time: int,
    pub font_reason: int,
    /// Row 1 holds number and countdown, row 2 the reason.
    pub row1_h: int,
    /// Team-coloured box, wide enough for `88`.
    pub num_box_w: int,
    pub tile_x: int,
    /// Where the lowest tile starts.
    pub first_y: int,
    /// No tile starts above this line.
    pub top_limit: int,
}

pub open spec fn tile_geometry(left: bool, params: &LayoutParams) -> Tile {
    let w = params.frame_width as int;
    let tile_w = scaled(params.sizes.penalty_tile_w as int, w);
    let tile_h = scaled(params.sizes.penalty_tile_h as int, w);
    let margin = scaled(16_000, w);
    let row_pad = scaled(4_000, w);
    let font_num = scaled(params.sizes.font_penalty_num as int, w);
    let font_time = scaled(params.sizes.font_penalty_time as int, w);
    Tile {
        tile_w,
        tile_h,
        gap: scaled(6_000, w),
        row_pad,
        font_num,
        font_time,
        font_reason: scaled(params.sizes.font_penalty_reason as int, w),
        row1_h: max_int(tile_h * 2 / 3, max_int(font_num, font_time) + 2 * row_pad),
        num_box_w: width(2, font_num, 65) + 2 * row_pad,
        tile_x: if left {
            margin
        } else {
            w - margin - tile_w
        },
        first_y: params.frame_height - margin - tile_h,
        top_limit: margin + scaled(120_000, w),
    }
}

/// Size of the goalkeeper badge text: 85 % of the reason, computed in single
/// precision, at least 10.
pub open spec fn badge_font(font_reason: int) -> int {
    let share = floats::rounded_share(font_reason, 85);
    if share > u32::MAX {
        u32::MAX as int
    } else {
        max_int(share, 10)
    }
}

/// The `GK` badge in the top-left corner of a tile at height `y`.
pub open spec fn gk_badge(t: Tile, y: int, params: &LayoutParams) -> Seq<Draw> {
    let w = params.frame_width as int;
    let font = badge_font(t.font_reason);
    let x = t.tile_x + scaled(3_000, w);
    let top = y + scaled(3_000, w);
    seq![
        fill(
            x,
            top,
            width("GK"@.len() as int, font, 62) + scaled(6_000, w),
            font + scaled(4_000, w),
            text_dark(),
        ),
        text_in(
            x + scaled(3_000, w),
            top + font + scaled(1_000, w),
            "GK"@,
            true,
            font,
            text_light(),
            params,
        ),
    ]
}

/// Minutes and seconds, two digits each at least.
pub open spec fn countdown(secs: nat) -> Seq<char> {
    text::decimal2(secs / 60).push(':') + text::decimal2(secs % 60)
}

/// One tile at height `y`: number box, countdown cell, badge, number,
/// countdown, reason row.
pub open spec fn tile_at(
    t: Tile,
    tile: &PenaltyTile,
    y: int,
    team_color: Rgba,
    params: &LayoutParams,
) -> Seq<Draw> {
    let nudge = scaled(2_000, params.frame_width as int);
    let timer_w = max_int(t.tile_w - t.num_box_w, 0);
    let row2_h = t.tile_h - t.row1_h;
    let baseline = y + (t.row1_h + t.font_num) / 2 - nudge;
    let number = text::decimal(tile.player_number as nat);
    let time = countdown(tile.secs_remaining as nat);
    seq![
        fill(t.tile_x, y, t.num_box_w, t.row1_h, team_color),
        fill(t.tile_x + t.num_box_w, y, timer_w, t.row1_h, label_bg()),
    ] + (if tile.is_goalkeeper {
        gk_badge(t, y, params)
    } else {
        Seq::empty()
    }) + seq![
        text_in(
            t.tile_x + half(t.num_box_w - width(number.len() as int, t.font_num, 65)),
            baseline,
            number,
            true,
            t.font_num,
            text_on(team_color),
            params,
        ),
        text_in(
            t.tile_x + t.num_box_w + half(timer_w - width(time.len() as int, t.font_time, 65)),
            baseline,
            time,
            false,
            t.font_time,
            text_dark(),
            params,
        ),
        fill(t.tile_x, y + t.row1_h, t.tile_w, row2_h, label_bg()),
    ] + (if tile.penalty_reason@.len() == 0 {
        Seq::empty()
    } else {
        seq![
            text_in(
                t.tile_x + t.row_pad,
                y + t.row1_h + half(row2_h + t.font_reason) - nudge,
                truncated(
                    tile.penalty_reason@,
                    max_int(t.tile_w - 2 * t.row_pad, 0),
                    t.font_reason,
                ),
                false,
                t.font_reason,
                text_dark(),
                params,
            ),
        ]
    })
}

/// Tiles stacked upward from the bottom corner, as many as fit below the
/// limit line. `y` is the height of the first of `tiles`.
pub open spec fn tile_stack(
    t: Tile,
    tiles: Seq<PenaltyTile>,
    y: int,
    team_color: Rgba,
    params: &LayoutParams,
) -> Seq<Draw>
    decreases tiles.len(),
{
    if tiles.len() == 0 || y < t.top_limit {
        Seq::empty()
    } else {
        tile_at(t, &tiles[0], y, team_color, params) + tile_stack(
            t,
            tiles.drop_first(),
            y - (t.tile_h + t.gap),
            team_color,
            params,
        )
    }
}

/// The penalty column of one team.
pub open spec fn penalty_column(
    left: bool,
    tiles: Seq<PenaltyTile>,
    team_color: Rgba,
    params: &LayoutParams,
) -> Seq<Draw> {
    let t = tile_geometry(left, params);
    tile_stack(t, tiles, t.first_y, team_color, params)
}

/// [`Tile`], as the layout computes it.
struct TileGrid {
    tile_w: i64,
    tile_h: i64,
    gap: i64,
    row_pad: i64,
    font_num: u32,
    font_time: u32,
    font_reason: u32,
    row1_h: i64,
    num_box_w: i64,
    tile_x: i64,
    first_y: i64,
    top_limit: i64,
}

impl View for TileGrid {
    type V = Tile;

    closed spec fn view(&self) -> Tile {
        Tile {
            tile_w: self.tile_w as int,
            tile_h: self.tile_h as int,
            gap: self.gap as int,
            row_pad: self.row_pad as int,
            font_num: self.font_num as int,
            font_time: self.font_time as int,
            font_reason: self.font_reason as int,
            row1_h: self.row1_h as int,
            num_box_w: self.num_box_w as int,
            tile_x: self.tile_x as int,
            first_y: self.first_y as int,
            top_limit: self.top_limit as int,
        }
    }
}

impl TileGrid {
    spec fn small(&self) -> bool {
        let m = 0x4_0000_0000int;
        &&& 0 <= self.tile_w <= i32::MAX
        &&& 0 <= self.tile_h <= i32::MAX
        &&& 0 <= self.gap <= i32::MAX
        &&& 0 <= self.row_pad <= i32::MAX
        &&& self.font_num <= i32::MAX
        &&& self.font_time <= i32::MAX
        &&& self.font_reason <= i32::MAX
        &&& 0 <= self.row1_h <= m
        &&& 0 <= self.num_box_w <= m
        &&& -m <= self.tile_x <= m
        &&& -m <= self.first_y <= m
        &&& 0 <= self.top_limit <= m
    }
}

fn measure_tile(left: bool, params: &LayoutParams) -> (g: TileGrid)
    requires
        params.wf(),
    ensures
        g@ == tile_geometry(left, params),
        g.small(),
{
    let w: u32 = params.frame_width;
    let tile_w: i64 = scale(params.sizes.penalty_tile_w, w);
    let tile_h: i64 = scale(params.sizes.penalty_tile_h, w);
    let margin: i64 = scale(16_000, w);
    let row_pad: i64 = scale(4_000, w);
    let font_num: u32 = scale(params.sizes.font_penalty_num, w) as u32;
    let font_time: u32 = scale(params.sizes.font_penalty_time, w) as u32;
    let tile_x: i64 = if left {
        margin
    } else {
        w as i64 - margin - tile_w
    };
    TileGrid {
        tile_w,
        tile_h,
        gap: scale(6_000, w),
        row_pad,
        font_num,
        font_time,
        font_reason: scale(params.sizes.font_penalty_reason, w) as u32,
        row1_h: max_i64(tile_h * 2 / 3, max_i64(font_num as i64, font_time as i64) + 2 * row_pad),
        num_box_w: width_px(2, font_num, 65) as i64 + 2 * row_pad,
        tile_x,
        first_y: params.frame_height as i64 - margin - tile_h,
        top_limit: margin + scale(120_000, w),
    }
}

fn push_gk_badge(cmds: &mut Vec<OverlayCommand>, g: &TileGrid, y: i64, params: &LayoutParams)
    requires
        g.small(),
        -0x8_0000_0000 <= y <= 0x8_0000_0000,
    ensures
        commands::drawn(final(cmds)@) == commands::drawn(old(cmds)@) + gk_badge(
            g@,
            y as int,
            params,
        ),
{
    let w: u32 = params.frame_width;
    let scaled_font: u64 = floats::round_share(g.font_reason, 85);
    let font: u32 = if scaled_font > 0xffff_ffff {
        0xffff_ffff
    } else if scaled_font >= 10 {
        scaled_font as u32
    } else {
        10
    };
    let x: i64 = g.tile_x + scale(3_000, w);
    let top: i64 = y + scale(3_000, w);
    let badge_w: i64 = estimate_text_width("GK", font) as i64 + scale(6_000, w);
    push_fill(cmds, x, top, badge_w, font as i64 + scale(4_000, w), Rgba::opaque(12, 12, 12));
    push_text(
        cmds,
        x + scale(3_000, w),
        top + font as i64 + scale(1_000, w),
        "GK".to_owned(),
        true,
        font,
        Rgba::opaque(255, 255, 255),
        params,
    );
    assert(commands::drawn(cmds@) =~= commands::drawn(old(cmds)@) + gk_badge(
        g@,
        y as int,
        params,
    ));
}

fn countdown_text(secs: u32) -> (s: String)
    ensures
        s@ == countdown(secs as nat),
{
    let mut out: String = String::new();
    text::push_decimal2(&mut out, (secs / 60) as u64);
    out.push(':');
    text::push_decimal2(&mut out, (secs % 60) as u64);
    assert(out@ =~= countdown(secs as nat));
    out
}

fn push_tile(
    cmds: &mut Vec<OverlayCommand>,
    g: &TileGrid,
    tile: &PenaltyTile,
    y: i64,
    team_color: Rgba,
    params: &LayoutParams,
)
    requires
        g.small(),
        -0x8_0000_0000 <= y <= 0x8_0000_0000,
    ensures
        commands::drawn(final(cmds)@) == commands::drawn(old(cmds)@) + tile_at(
            g@,
            tile,
            y as int,
            team_color,
            params,
        ),
{
    let nudge: i64 = scale(2_000, params.frame_width);
    let label = Rgba::opaque(217, 217, 217);
    let dark = Rgba::opaque(12, 12, 12);
    let timer_w: i64 = max_i64(g.tile_w - g.num_box_w, 0);
    let row2_h: i64 = g.tile_h - g.row1_h;
    let baseline: i64 = y + (g.row1_h + g.font_num as i64) / 2 - nudge;
    let timer_x: i64 = g.tile_x + g.num_box_w;
    push_fill(cmds, g.tile_x, y, g.num_box_w, g.row1_h, team_color);
    push_fill(cmds, timer_x, y, timer_w, g.row1_h, label);
    let ghost backed = commands::drawn(cmds@);
    if tile.is_goalkeeper {
        push_gk_badge(cmds, g, y, params);
    }
    let ghost badge = if tile.is_goalkeeper {
        gk_badge(g@, y as int, params)
    } else {
        Seq::empty()
    };
    assert(commands::drawn(cmds@) =~= backed + badge);

    let number: String = text::decimal_string(tile.player_number as u64);
    let number_w: i64 = estimate_text_width_digits(number.as_str(), g.font_num) as i64;
    push_text(
        cmds,
        g.tile_x + half_of(g.num_box_w - number_w),
        baseline,
        number,
        true,
        g.font_num,
        contrasting_text_color(team_color),
        params,
    );
    let time: String = countdown_text(tile.secs_remaining);
    let time_w: i64 = estimate_text_width_digits(time.as_str(), g.font_time) as i64;
    push_text(
        cmds,
        timer_x + half_of(timer_w - time_w),
        baseline,
        time,
        false,
        g.font_time,
        dark,
        params,
    );
    let row2_y: i64 = y + g.row1_h;
    push_fill(cmds, g.tile_x, row2_y, g.tile_w, row2_h, label);
    if !tile.penalty_reason.as_str().is_empty() {
        let reason_room: u32 = max_i64(g.tile_w - 2 * g.row_pad, 0) as u32;
        let reason: String = truncate_for_display(
            tile.penalty_reason.as_str(),
            reason_room,
            g.font_reason,
        );
        push_text(
            cmds,
            g.tile_x + g.row_pad,
            row2_y + half_of(row2_h + g.font_reason as i64) - nudge,
            reason,
            false,
            g.font_reason,
            dark,
            params,
        );
    }
    assert(commands::drawn(cmds@) =~= commands::drawn(old(cmds)@) + tile_at(
        g@,
        tile,
        y as int,
        team_color,
        params,
    ));
}

fn push_penalty_column(
    cmds: &mut Vec<OverlayCommand>,
    left: bool,
    tiles: &Vec<PenaltyTile>,
    team_color: Rgba,
    params: &LayoutParams,
)
    requires
        params.wf(),
    ensures
        commands::drawn(final(cmds)@) == commands::drawn(old(cmds)@) + penalty_column(
            left,
            tiles@,
            team_color,
            params,
        ),
{
    let g: TileGrid = measure_tile(left, params);
    let ghost t = g@;
    let ghost whole = tile_stack(t, tiles@, t.first_y, team_color, params);
    let n: usize = tiles.len();
    let mut y: i64 = g.first_y;
    let mut i: usize = 0;
    assert(tiles@.skip(0) =~= tiles@);
    while i < n && y >= g.top_limit
        invariant
            i <= n == tiles@.len(),
            g.small(),
            t == g@,
            -0x8_0000_0000 <= y <= 0x8_0000_0000,
            commands::drawn(cmds@) + tile_stack(
                t,
                tiles@.skip(i as int),
                y as int,
                team_color,
                params,
            ) == commands::drawn(old(cmds)@) + whole,
        decreases n - i,
    {
        let ghost before = commands::drawn(cmds@);
        push_tile(cmds, &g, &tiles[i], y, team_color, params);
        proof {
            let rest = tiles@.skip(i as int);
            assert(rest[0] == tiles@[i as int]);
            assert(rest.drop_first() =~= tiles@.skip(i + 1));
            let one = tile_at(t, &tiles@[i as int], y as int, team_color, params);
            let more = tile_stack(
                t,
                tiles@.skip(i + 1),
                y - (t.tile_h + t.gap),
                team_color,
                params,
            );
            assert(before + one + more =~= before + (one + more));
        }
        y = y - (g.tile_h + g.gap);
        i = i + 1;
    }
    assert(commands::drawn(cmds@) =~= commands::drawn(cmds@) + Seq::empty());
}

// The whole overlay.

/// A pill in a top corner with its text; nothing for an empty text.
pub open spec fn pill(
    text: Seq<char>,
    text_w: int,
    left: bool,
    params: &LayoutParams,
) -> Seq<Draw> {
    let w = params.frame_width as int;
    let margin = scaled(16_000, w);
    let pad_x = scaled(12_000, w);
    let pad_y = scaled(6_000, w);
    let font = scaled(params.sizes.font_pill as int, w);
    let pill_w = text_w + 2 * pad_x;
    let x = if left {
        margin
    } else {
        w - margin - pill_w
    };
    if text.len() == 0 {
        Seq::empty()
    } else {
        seq![
            fill(x, margin, pill_w, font + 2 * pad_y, pill_bg()),
            text_in(x + pad_x, margin + pad_y + font, text, true, font, text_dark(), params),
        ]
    }
}

/// What [`scoreboard_commands`] draws, in paint order.
pub open spec fn overlay_drawn(state: &ScoreboardState, params: &LayoutParams) -> Seq<Draw> {
    let font = scaled(params.sizes.font_pill as int, params.frame_width as int);
    pill(state.field_name@, width(state.field_name@.len() as int, font, 62), true, params) + pill(
        state.clock_text@,
        width(state.clock_text@.len() as int, font, 65),
        false,
        params,
    ) + center_board(state, params) + penalty_column(
        true,
        state.home_penalty_timers@,
        or_color(state.home_team_color, default_home()),
        params,
    ) + penalty_column(
        false,
        state.away_penalty_timers@,
        or_color(state.away_team_color, default_away()),
        params,
    )
}

fn push_pill(
    cmds: &mut Vec<OverlayCommand>,
    text: &String,
    text_w: u32,
    left: bool,
    params: &LayoutParams,
)
    requires
        params.wf(),
    ensures
        commands::drawn(final(cmds)@) == commands::drawn(old(cmds)@) + pill(
            text@,
            text_w as int,
            left,
            params,
        ),
{
    if !text.as_str().is_empty() {
        let w: u32 = params.frame_width;
        let margin: i64 = scale(16_000, w);
        let pad_x: i64 = scale(12_000, w);
        let pad_y: i64 = scale(6_000, w);
        let font: i64 = scale(params.sizes.font_pill, w);
        let pill_w: i64 = text_w as i64 + 2 * pad_x;
        let x: i64 = if left {
            margin
        } else {
            w as i64 - margin - pill_w
        };
        push_fill(cmds, x, margin, pill_w, font + 2 * pad_y, Rgba::new(217, 217, 217, 128));
        push_text(
            cmds,
            x + pad_x,
            margin + pad_y + font,
            text.clone(),
            true,
            font as u32,
            Rgba::opaque(12, 12, 12),
            params,
        );
    }
    assert(commands::drawn(cmds@) =~= commands::drawn(old(cmds)@) + pill(
        text@,
        text_w as int,
        left,
        params,
    ));
}

/// Build the overlay commands, back to front.
pub fn scoreboard_commands(state: &ScoreboardState, params: &LayoutParams) -> (cmds: Vec<
    OverlayCommand,
>)
    requires
        state.wf(),
        params.wf(),
    ensures
        commands::drawn(cmds@) == overlay_drawn(state, params),
{
    let mut cmds: Vec<OverlayCommand> = Vec::with_capacity(64);
    let font_pill: u32 = scale(params.sizes.font_pill, params.frame_width) as u32;
    let field_w: u32 = estimate_text_width(state.field_name.as_str(), font_pill);
    let clock_w: u32 = estimate_text_width_digits(state.clock_text.as_str(), font_pill);
    let home: Rgba = match state.home_team_color {
        Some(c) => c,
        None => Rgba::opaque(217, 25, 25),
    };
    let away: Rgba = match state.away_team_color {
        Some(c) => c,
        None => Rgba::opaque(25, 50, 217),
    };
    push_pill(&mut cmds, &state.field_name, field_w, true, params);
    push_pill(&mut cmds, &state.clock_text, clock_w, false, params);
    push_scoreboard(&mut cmds, state, params);
    push_penalty_column(&mut cmds, true, &state.home_penalty_timers, home, params);
    push_penalty_column(&mut cmds, false, &state.away_penalty_timers, away, params);
    proof {
        let empty = Seq::<Draw>::empty();
        lemma_concat(
            empty,
            pill(state.field_name@, field_w as int, true, params),
            pill(state.clock_text@, clock_w as int, false, params),
            center_board(state, params),
            penalty_column(true, state.home_penalty_timers@, home, params),
            penalty_column(false, state.away_penalty_timers@, away, params),
            empty,
        );
        let all = overlay_drawn(state, params);
        assert(commands::drawn(Seq::<OverlayCommand>::empty()) =~= empty);
        assert(commands::drawn(cmds@) + empty =~= commands::drawn(cmds@));
        assert(empty + (all + empty) =~= all);
    }
    cmds
}

} // verus!
