//! The scoreboard as vector drawing: panels, texts and dots.
//!
//! All lengths are whole numbers of a unit of one pixel in 192000. A hundredth
//! of a pixel on a frame of the reference width of 960 is then a whole number
//! of units on any frame: twice the frame's width.
use crate::clock;
use crate::overlay;
use crate::overlay::{
    format_game_phase, format_message_budget, format_mm_ss, format_state_line, shootout_dot_states,
    shootout_total_dots, DotState, GameOverlayData, PenaltyCard, GAME_PHASE_PENALTY_SHOOTOUT,
    SHOOTOUT_DOT_CAP,
};
use crate::renderer::color;
use crate::teams::{contrasting_text_rgb, JerseyColor};
use crate::text;
use vstd::prelude::*;

verus! {

/// Units in a pixel.
pub const UNITS_PER_PIXEL: u32 = 192_000;

/// A colour and how much it covers, in percent.
#[derive(Debug, Clone, Copy, PartialEq, Eq)]
pub struct Ink {
    pub color: JerseyColor,
    pub percent: u8,
}

/// How large a text is, in units.
#[derive(Debug, Clone, Copy, PartialEq, Eq)]
pub struct Extent {
    pub width: i64,
    pub height: i64,
}

/// One thing to draw.
#[derive(Debug, Clone, PartialEq, Eq)]
pub enum Stroke {
    /// A filled rectangle with rounded corners.
    Panel { x: i128, y: i128, width: i128, height: i128, radius: i128, ink: Ink },
    /// A text, by the left end of its base line.
    Label { x: i128, y: i128, size: i128, text: String, ink: Ink },
    /// A circle: filled, or drawn with a line of some width.
    Dot { x: i128, y: i128, radius: i128, line: Option<i128>, ink: Ink },
}

/// One thing to draw, as contracts speak of it.
pub enum Mark {
    Panel { x: int, y: int, width: int, height: int, radius: int, ink: Ink },
    Label { x: int, y: int, size: int, text: Seq<char>, ink: Ink },
    Dot { x: int, y: int, radius: int, line: Option<int>, ink: Ink },
}

impl View for Stroke {
    type V = Mark;

    open spec fn view(&self) -> Mark {
        match *self {
            Stroke::Panel { x, y, width, height, radius, ink } => Mark::Panel {
                x: x as int,
                y: y as int,
                width: width as int,
                height: height as int,
                radius: radius as int,
                ink,
            },
            Stroke::Label { x, y, size, text, ink } => Mark::Label {
                x: x as int,
                y: y as int,
                size: size as int,
                text: text@,
                ink,
            },
            Stroke::Dot { x, y, radius, line, ink } => Mark::Dot {
                x: x as int,
                y: y as int,
                radius: radius as int,
                line: match line {
                    Some(l) => Some(l as int),
                    None => None,
                },
                ink,
            },
        }
    }
}

/// What a list of strokes draws.
pub open spec fn marks(list: Seq<Stroke>) -> Seq<Mark> {
    Seq::new(list.len(), |i: int| list[i]@)
}

// Colours.

pub open spec fn grey(hundredths: int, percent: int) -> Ink {
    Ink {
        color: JerseyColor {
            r: (51 * hundredths) as u16,
            g: (51 * hundredths) as u16,
            b: (51 * hundredths) as u16,
        },
        percent: percent as u8,
    }
}

fn make_grey(hundredths: u8, percent: u8) -> (i: Ink)
    ensures
        i == grey(hundredths as int, percent as int),
{
    Ink { color: JerseyColor::from_hundredths(hundredths, hundredths, hundredths), percent }
}

pub open spec fn solid(color: JerseyColor) -> Ink {
    Ink { color, percent: 100 }
}

/// The colour of a team without one: red at home, blue away.
pub open spec fn team_ink(home: bool, color: Option<JerseyColor>) -> JerseyColor {
    match color {
        Some(c) => c,
        None => if home {
            JerseyColor { r: 4335, g: 510, b: 510 }
        } else {
            JerseyColor { r: 510, g: 1020, b: 4335 }
        },
    }
}

fn team_color(home: bool, color: Option<JerseyColor>) -> (c: JerseyColor)
    ensures
        c == team_ink(home, color),
{
    match color {
        Some(c) => c,
        None => if home {
            JerseyColor::from_hundredths(85, 10, 10)
        } else {
            JerseyColor::from_hundredths(10, 20, 85)
        },
    }
}

/// Black or white, whichever reads better.
pub open spec fn ink_on(bg: JerseyColor) -> Ink {
    if color::luminance(bg.r as int, bg.g as int, bg.b as int) > 3_060_000 {
        grey(0, 100)
    } else {
        grey(100, 100)
    }
}

fn make_ink_on(bg: JerseyColor) -> (i: Ink)
    ensures
        i == ink_on(bg),
{
    Ink { color: contrasting_text_rgb(bg), percent: 100 }
}

// Lengths.

/// Half of a length, rounded down.
fn half(v: i128) -> (h: i128)
    requires
        v > i128::MIN,
    ensures
        h == v as int / 2,
{
    if v >= 0 {
        v / 2
    } else {
        -((-v) / 2 + (-v) % 2)
    }
}

/// The corners of a panel are no larger than half its sides.
pub open spec fn corner(radius: int, width: int, height: int) -> int {
    let r = if radius < width / 2 {
        radius
    } else {
        width / 2
    };
    if r < height / 2 {
        r
    } else {
        height / 2
    }
}

pub open spec fn panel(x: int, y: int, width: int, height: int, radius: int, ink: Ink) -> Mark {
    Mark::Panel { x, y, width, height, radius: corner(radius, width, height), ink }
}

pub open spec fn label(x: int, y: int, size: int, text: Seq<char>, ink: Ink) -> Mark {
    Mark::Label { x, y, size, text, ink }
}

/// A length that leaves room for sums of many.
pub open spec fn moderate(v: i128) -> bool {
    -0x1000_0000_0000_0000_0000_0000_0000_0000 <= v <= 0x1000_0000_0000_0000_0000_0000_0000_0000
}

/// What is drawn so far.
struct Sheet {
    strokes: Vec<Stroke>,
}

impl Sheet {
    spec fn view(&self) -> Seq<Mark> {
        marks(self.strokes@)
    }

    fn push(&mut self, s: Stroke)
        ensures
            final(self)@ == old(self)@.push(s@),
    {
        self.strokes.push(s);
        assert(self@ =~= old(self)@.push(s@));
    }

    fn panel(&mut self, x: i128, y: i128, width: i128, height: i128, radius: i128, ink: Ink)
        requires
            moderate(width),
            moderate(height),
        ensures
            final(self)@ == old(self)@.push(
                panel(x as int, y as int, width as int, height as int, radius as int, ink),
            ),
    {
        let hw: i128 = half(width);
        let hh: i128 = half(height);
        let r: i128 = if radius < hw {
            radius
        } else {
            hw
        };
        let r: i128 = if r < hh {
            r
        } else {
            hh
        };
        self.push(Stroke::Panel { x, y, width, height, radius: r, ink });
    }

    fn label(&mut self, x: i128, y: i128, size: i128, text: &str, ink: Ink)
        ensures
            final(self)@ == old(self)@.push(label(x as int, y as int, size as int, text@, ink)),
    {
        self.push(Stroke::Label { x, y, size, text: text.to_owned(), ink });
    }
}

// Shoot-out dots.

/// One dot of a row.
pub open spec fn dot_mark(x: int, y: int, u: int, state: DotState, team: JerseyColor) -> Mark {
    match state {
        DotState::Scored => Mark::Dot { x, y, radius: 300 * u, line: None, ink: solid(team) },
        DotState::Missed => Mark::Dot {
            x,
            y,
            radius: 300 * u,
            line: Some(150 * u),
            ink: solid(team),
        },
        DotState::Upcoming => Mark::Dot {
            x,
            y,
            radius: 300 * u,
            line: Some(100 * u),
            ink: grey(70, 30),
        },
    }
}

/// A row of dots round a centre.
pub open spec fn dot_row(
    center_x: int,
    center_y: int,
    u: int,
    dots: Seq<DotState>,
    team: JerseyColor,
) -> Seq<Mark> {
    let row_w = dots.len() * (600 * u) + (dots.len() - 1) * (300 * u);
    let first = center_x - row_w / 2 + 300 * u;
    Seq::new(dots.len(), |i: int| dot_mark(first + i * (900 * u), center_y, u, dots[i], team))
}

fn draw_shootout_dots(
    sheet: &mut Sheet,
    center_x: i128,
    center_y: i128,
    u: i128,
    dots: &Vec<DotState>,
    team: JerseyColor,
)
    requires
        0 <= u <= 0x2_0000_0000,
        dots@.len() <= 32,
        moderate(center_x),
    ensures
        final(sheet)@ == old(sheet)@ + dot_row(
            center_x as int,
            center_y as int,
            u as int,
            dots@,
            team,
        ),
{
    let n: i128 = dots.len() as i128;
    if n == 0 {
        assert(sheet@ =~= old(sheet)@ + dot_row(
            center_x as int,
            center_y as int,
            u as int,
            dots@,
            team,
        ));
        return;
    }
    assert(0 <= n * (600 * u) <= 32 * 600 * 0x2_0000_0000 && 0 <= (n - 1) * (300 * u) <= 32 * 300
        * 0x2_0000_0000) by (nonlinear_arith)
        requires
            1 <= n <= 32,
            0 <= u <= 0x2_0000_0000,
    ;
    let row_w: i128 = n * (600 * u) + (n - 1) * (300 * u);
    let first: i128 = center_x - half(row_w) + 300 * u;
    let ghost row = dot_row(center_x as int, center_y as int, u as int, dots@, team);
    let mut i: usize = 0;
    assert(sheet@ =~= old(sheet)@ + row.take(0));
    while i < dots.len()
        invariant
            i <= dots@.len() <= 32,
            0 <= u <= 0x2_0000_0000,
            moderate(center_x),
            0 <= row_w <= 32 * 900 * 0x2_0000_0000,
            first == center_x - row_w as int / 2 + 300 * u,
            row == dot_row(center_x as int, center_y as int, u as int, dots@, team),
            row_w == dots@.len() * (600 * u) + (dots@.len() - 1) * (300 * u),
            sheet@ == old(sheet)@ + row.take(i as int),
        decreases dots@.len() - i,
    {
        assert(0 <= i * (900 * u) <= 32 * 900 * 0x2_0000_0000) by (nonlinear_arith)
            requires
                0 <= i <= 32,
                0 <= u <= 0x2_0000_0000,
        ;
        let x: i128 = first + (i as i128) * (900 * u);
        let (line, ink): (Option<i128>, Ink) = match dots[i] {
            DotState::Scored => (None, Ink { color: team, percent: 100 }),
            DotState::Missed => (Some(150 * u), Ink { color: team, percent: 100 }),
            DotState::Upcoming => (Some(100 * u), make_grey(70, 30)),
        };
        sheet.push(Stroke::Dot { x, y: center_y, radius: 300 * u, line, ink });
        proof {
            assert(row[i as int] == dot_mark(x as int, center_y as int, u as int, dots@[i as int], team));
            assert(sheet@ =~= old(sheet)@ + row.take(i + 1));
        }
        i = i + 1;
    }
    assert(row.take(i as int) =~= row);
}

// Penalty cards.

/// How large the texts of a card are.
#[derive(Debug, Clone, Copy, PartialEq, Eq)]
pub struct CardExtents {
    pub number: Extent,
    pub badge: Extent,
    pub timer: Extent,
    pub reason: Extent,
}

/// A text in the middle of a row of a card.
pub open spec fn card_text(
    x: int,
    row_y: int,
    u: int,
    e: Extent,
    size: int,
    text: Seq<char>,
    ink: Ink,
) -> Mark {
    label(
        x + 4000 * u - e.width as int / 2,
        row_y + 1800 * u - (1800 * u - e.height) / 2,
        size,
        text,
        ink,
    )
}

/// The mark on the card of a goalkeeper.
pub open spec fn badge_marks(x: int, y: int, u: int, e: Extent) -> Seq<Mark> {
    seq![
        panel(
            x + 270 * u,
            y + 270 * u,
            e.width + 648 * u,
            e.height + 432 * u,
            180 * u,
            grey(5, 85),
        ),
        label(
            x + 270 * u + 324 * u,
            y + 270 * u + 216 * u + e.height,
            1020 * u,
            "GK"@,
            grey(100, 100),
        ),
    ]
}

/// A penalty card: the player's number on the team's colour, the time that is
/// left, and the reason.
pub open spec fn card_marks(
    x: int,
    y: int,
    u: int,
    card: PenaltyCard,
    e: CardExtents,
    team: JerseyColor,
    goalkeeper: bool,
) -> Seq<Mark> {
    seq![
        panel(x, y, 8000 * u, 5400 * u, 300 * u, grey(5, 85)),
        panel(x, y, 8000 * u, 1800 * u, 300 * u, solid(team)),
        card_text(
            x,
            y,
            u,
            e.number,
            1600 * u,
            text::decimal(card.player_number as nat),
            ink_on(team),
        ),
    ] + (if goalkeeper {
        badge_marks(x, y, u, e.badge)
    } else {
        Seq::empty()
    }) + seq![
        panel(x, y + 1800 * u, 8000 * u, 1800 * u, 90 * u, grey(85, 100)),
        card_text(
            x,
            y + 1800 * u,
            u,
            e.timer,
            1600 * u,
            overlay::mm_ss_of(card.secs_remaining as nat),
            grey(5, 100),
        ),
        card_text(x, y + 3600 * u, u, e.reason, 1200 * u, card.penalty_reason@, grey(100, 100)),
    ]
}

/// The time that is left on a card.
pub fn card_timer(secs: u32) -> (s: String)
    ensures
        s@ == overlay::mm_ss_of(secs as nat),
{
    let mut s: String = String::new();
    text::push_decimal2(&mut s, secs as u64 / 60);
    s.push(':');
    text::push_decimal2(&mut s, secs as u64 % 60);
    assert(s@ =~= overlay::mm_ss_of(secs as nat));
    s
}

fn draw_card_text(
    sheet: &mut Sheet,
    x: i128,
    row_y: i128,
    u: i128,
    e: Extent,
    size: i128,
    text: &str,
    ink: Ink,
)
    requires
        0 <= u <= 0x2_0000_0000,
        moderate(x),
        moderate(row_y),
    ensures
        final(sheet)@ == old(sheet)@.push(
            card_text(x as int, row_y as int, u as int, e, size as int, text@, ink),
        ),
{
    let left: i128 = x + 4000 * u - half(e.width as i128);
    let base: i128 = row_y + 1800 * u - half(1800 * u - e.height as i128);
    sheet.label(left, base, size, text, ink);
}

fn draw_one_penalty_card(
    sheet: &mut Sheet,
    x: i128,
    y: i128,
    u: i128,
    card: &PenaltyCard,
    e: &CardExtents,
    team: JerseyColor,
    goalkeeper: bool,
)
    requires
        0 <= u <= 0x2_0000_0000,
        -0x800_0000_0000_0000_0000_0000_0000_0000 <= x
            <= 0x800_0000_0000_0000_0000_0000_0000_0000,
        -0x800_0000_0000_0000_0000_0000_0000_0000 <= y
            <= 0x800_0000_0000_0000_0000_0000_0000_0000,
    ensures
        final(sheet)@ == old(sheet)@ + card_marks(
            x as int,
            y as int,
            u as int,
            *card,
            *e,
            team,
            goalkeeper,
        ),
{
    let number: String = text::decimal_string(card.player_number as u64);
    let timer: String = card_timer(card.secs_remaining);
    sheet.panel(x, y, 8000 * u, 5400 * u, 300 * u, make_grey(5, 85));
    sheet.panel(x, y, 8000 * u, 1800 * u, 300 * u, Ink { color: team, percent: 100 });
    draw_card_text(sheet, x, y, u, e.number, 1600 * u, number.as_str(), make_ink_on(team));
    if goalkeeper {
        sheet.panel(
            x + 270 * u,
            y + 270 * u,
            e.badge.width as i128 + 648 * u,
            e.badge.height as i128 + 432 * u,
            180 * u,
            make_grey(5, 85),
        );
        sheet.label(
            x + 270 * u + 324 * u,
            y + 270 * u + 216 * u + e.badge.height as i128,
            1020 * u,
            "GK",
            make_grey(100, 100),
        );
    }
    sheet.panel(x, y + 1800 * u, 8000 * u, 1800 * u, 90 * u, make_grey(85, 100));
    draw_card_text(sheet, x, y + 1800 * u, u, e.timer, 1600 * u, timer.as_str(), make_grey(5, 100));
    draw_card_text(
        sheet,
        x,
        y + 3600 * u,
        u,
        e.reason,
        1200 * u,
        card.penalty_reason.as_str(),
        make_grey(100, 100),
    );
    assert(sheet@ =~= old(sheet)@ + card_marks(
        x as int,
        y as int,
        u as int,
        *card,
        *e,
        team,
        goalkeeper,
    ));
}

/// Where card `i` of `n` stands: the last one on the bottom margin, the others
/// above it.
pub open spec fn card_y(frame_h: int, u: int, n: int, i: int) -> int {
    frame_h - 1000 * u - (n * (5800 * u) - 400 * u) + i * (5800 * u)
}

/// The first `k` cards of a column.
pub open spec fn column_marks(
    x: int,
    frame_h: int,
    u: int,
    cards: Seq<PenaltyCard>,
    e: Seq<CardExtents>,
    team: JerseyColor,
    goalkeeper: u32,
    k: nat,
) -> Seq<Mark>
    decreases k,
{
    if k == 0 {
        Seq::empty()
    } else {
        column_marks(x, frame_h, u, cards, e, team, goalkeeper, (k - 1) as nat) + card_marks(
            x,
            card_y(frame_h, u, cards.len() as int, k - 1),
            u,
            cards[k - 1],
            e[k - 1],
            team,
            goalkeeper != 0 && cards[k - 1].player_number == goalkeeper,
        )
    }
}

proof fn lemma_card_room(u: int, n: int, i: int)
    requires
        0 <= u <= 0x2_0000_0000,
        0 <= i <= n <= 0xffff_ffff_ffff_ffff,
    ensures
        0 <= i * (5800 * u) <= n * (5800 * u) <= 0x100_0000_0000_0000_0000_0000_0000_0000,
{
    assert(0 <= i * (5800 * u) <= n * (5800 * u)) by (nonlinear_arith)
        requires
            0 <= u,
            0 <= i <= n,
    ;
    assert(n * (5800 * u) <= 0x100_0000_0000_0000_0000_0000_0000_0000) by (nonlinear_arith)
        requires
            0 <= u <= 0x2_0000_0000,
            0 <= n <= 0xffff_ffff_ffff_ffff,
    ;
}

fn draw_penalty_cards(
    sheet: &mut Sheet,
    x: i128,
    frame_h: i128,
    u: i128,
    cards: &Vec<PenaltyCard>,
    e: &Vec<CardExtents>,
    team: JerseyColor,
    goalkeeper: u32,
)
    requires
        0 <= u <= 0x2_0000_0000,
        -0x1_0000_0000_0000_0000 <= x <= 0x1_0000_0000_0000_0000,
        0 <= frame_h <= 0x1_0000_0000_0000_0000,
        cards@.len() == e@.len(),
    ensures
        final(sheet)@ == old(sheet)@ + column_marks(
            x as int,
            frame_h as int,
            u as int,
            cards@,
            e@,
            team,
            goalkeeper,
            cards@.len(),
        ),
{
    let n: usize = cards.len();
    let mut i: usize = 0;
    assert(sheet@ =~= old(sheet)@ + Seq::<Mark>::empty());
    while i < n
        invariant
            i <= n == cards@.len() == e@.len(),
            0 <= u <= 0x2_0000_0000,
            -0x1_0000_0000_0000_0000 <= x <= 0x1_0000_0000_0000_0000,
            0 <= frame_h <= 0x1_0000_0000_0000_0000,
            sheet@ == old(sheet)@ + column_marks(
                x as int,
                frame_h as int,
                u as int,
                cards@,
                e@,
                team,
                goalkeeper,
                i as nat,
            ),
        decreases n - i,
    {
        proof {
            lemma_card_room(u as int, n as int, i as int);
        }
        let y: i128 = frame_h - 1000 * u - ((n as i128) * (5800 * u) - 400 * u) + (i as i128) * (5800
            * u);
        let is_goalkeeper: bool = goalkeeper != 0 && cards[i].player_number == goalkeeper;
        let ghost before = sheet@;
        draw_one_penalty_card(sheet, x, y, u, &cards[i], &e[i], team, is_goalkeeper);
        proof {
            let card = card_marks(
                x as int,
                y as int,
                u as int,
                cards@[i as int],
                e@[i as int],
                team,
                is_goalkeeper,
            );
            assert(sheet@ =~= old(sheet)@ + column_marks(
                x as int,
                frame_h as int,
                u as int,
                cards@,
                e@,
                team,
                goalkeeper,
                (i + 1) as nat,
            ));
        }
        i = i + 1;
    }
}

// The scoreboard.

/// How large the texts of the scoreboard are.
#[derive(Debug, Clone, PartialEq, Eq)]
pub struct OverlayExtents {
    pub field_name: Extent,
    pub wall_clock: Extent,
    pub name1: Extent,
    pub name2: Extent,
    pub budget1: Extent,
    pub budget2: Extent,
    pub phase: Extent,
    pub score1: Extent,
    pub score2: Extent,
    pub game_clock: Extent,
    pub state_line: Extent,
    pub cards1: Vec<CardExtents>,
    pub cards2: Vec<CardExtents>,
}

/// Where the scoreboard stands and how wide its parts are.
pub struct Place {
    /// A hundredth of a reference pixel.
    pub u: int,
    /// The frame's width.
    pub frame_w: int,
    pub x: int,
    pub y: int,
    pub total_w: int,
    pub name_w: int,
    /// The room for the goalkeepers' colours.
    pub segment1: int,
    pub segment2: int,
}

pub open spec fn segment(gk: Option<JerseyColor>, u: int) -> int {
    if gk is Some {
        700 * u
    } else {
        0
    }
}

/// The scoreboard stands in the middle, on the bottom margin.
pub open spec fn place_of(data: GameOverlayData, e: OverlayExtents, width: u32, height: u32) -> Place {
    let u = 2 * width as int;
    let frame_w = 96_000 * u;
    let widest = if e.name1.width >= e.name2.width {
        e.name1.width as int
    } else {
        e.name2.width as int
    };
    let name_w = widest + 1200 * u;
    let segment1 = segment(data.team1_goalkeeper_color, u);
    let segment2 = segment(data.team2_goalkeeper_color, u);
    let total_w = 13_200 * u + segment1 + segment2 + 2 * name_w;
    Place {
        u,
        frame_w,
        x: (frame_w - total_w) / 2,
        y: 192_000 * height - 8800 * u,
        total_w,
        name_w,
        segment1,
        segment2,
    }
}

impl Place {
    pub open spec fn name1_x(self) -> int {
        self.x + 1200 * self.u + self.segment1
    }

    pub open spec fn score1_x(self) -> int {
        self.name1_x() + self.name_w
    }

    pub open spec fn clock_x(self) -> int {
        self.score1_x() + 2400 * self.u
    }

    pub open spec fn score2_x(self) -> int {
        self.clock_x() + 6200 * self.u
    }

    pub open spec fn name2_x(self) -> int {
        self.score2_x() + 2200 * self.u
    }

    pub open spec fn row2_y(self) -> int {
        self.y + 2200 * self.u
    }
}

/// [`Place`], as the layout computes it.
struct Grid {
    u: i128,
    frame_w: i128,
    x: i128,
    y: i128,
    total_w: i128,
    name_w: i128,
    segment1: i128,
    segment2: i128,
}

impl Grid {
    spec fn view(&self) -> Place {
        Place {
            u: self.u as int,
            frame_w: self.frame_w as int,
            x: self.x as int,
            y: self.y as int,
            total_w: self.total_w as int,
            name_w: self.name_w as int,
            segment1: self.segment1 as int,
            segment2: self.segment2 as int,
        }
    }

    spec fn small(&self) -> bool {
        &&& 0 <= self.u <= 0x2_0000_0000
        &&& 0 <= self.frame_w <= 0x1_0000_0000_0000_0000
        &&& -0x1_0000_0000_0000_0000_0000 <= self.x <= 0x1_0000_0000_0000_0000_0000
        &&& -0x1_0000_0000_0000_0000_0000 <= self.y <= 0x1_0000_0000_0000_0000_0000
        &&& -0x1_0000_0000_0000_0000_0000 <= self.total_w <= 0x1_0000_0000_0000_0000_0000
        &&& -0x1_0000_0000_0000_0000_0000 <= self.name_w <= 0x1_0000_0000_0000_0000_0000
        &&& 0 <= self.segment1 <= 0x1_0000_0000_0000_0000
        &&& 0 <= self.segment2 <= 0x1_0000_0000_0000_0000
    }
}

fn make_grid(data: &GameOverlayData, e: &OverlayExtents, width: u32, height: u32) -> (g: Grid)
    ensures
        g@ == place_of(*data, *e, width, height),
        g.small(),
{
    let u: i128 = 2 * (width as i128);
    let frame_w: i128 = 96_000 * u;
    let widest: i128 = if e.name1.width >= e.name2.width {
        e.name1.width as i128
    } else {
        e.name2.width as i128
    };
    let name_w: i128 = widest + 1200 * u;
    let segment1: i128 = if data.team1_goalkeeper_color.is_some() {
        700 * u
    } else {
        0
    };
    let segment2: i128 = if data.team2_goalkeeper_color.is_some() {
        700 * u
    } else {
        0
    };
    let total_w: i128 = 13_200 * u + segment1 + segment2 + 2 * name_w;
    Grid {
        u,
        frame_w,
        x: half(frame_w - total_w),
        y: 192_000 * (height as i128) - 8800 * u,
        total_w,
        name_w,
        segment1,
        segment2,
    }
}

/// The left or right cell of the first row: dots during a shoot-out with shots,
/// the message budget otherwise.
pub open spec fn cell_marks(
    p: Place,
    center: int,
    total_dots: u32,
    shots: u32,
    mask: u32,
    budget: u32,
    e: Extent,
    team: JerseyColor,
) -> Seq<Mark> {
    if total_dots > 0 {
        dot_row(
            center,
            p.y + 600 * p.u,
            p.u,
            Seq::new(total_dots as nat, |i: int| overlay::dot(shots, mask, i)),
            team,
        )
    } else {
        seq![
            label(
                center - e.width as int / 2,
                p.y + 1200 * p.u,
                1200 * p.u,
                "msg "@ + text::decimal(budget as nat),
                grey(80, 100),
            ),
        ]
    }
}

fn draw_cell(
    sheet: &mut Sheet,
    g: &Grid,
    center: i128,
    total_dots: u32,
    shots: u32,
    mask: u32,
    budget: u32,
    e: Extent,
    team: JerseyColor,
)
    requires
        g.small(),
        total_dots <= 32,
        -0x1_0000_0000_0000_0000_0000_0000 <= center <= 0x1_0000_0000_0000_0000_0000_0000,
    ensures
        final(sheet)@ == old(sheet)@ + cell_marks(
            g@,
            center as int,
            total_dots,
            shots,
            mask,
            budget,
            e,
            team,
        ),
{
    if total_dots > 0 {
        let dots: Vec<DotState> = shootout_dot_states(shots, mask, total_dots);
        draw_shootout_dots(sheet, center, g.y + 600 * g.u, g.u, &dots, team);
    } else {
        let s: String = format_message_budget(budget);
        sheet.label(
            center - half(e.width as i128),
            g.y + 1200 * g.u,
            1200 * g.u,
            s.as_str(),
            make_grey(80, 100),
        );
        assert(sheet@ =~= old(sheet)@ + cell_marks(
            g@,
            center as int,
            total_dots,
            shots,
            mask,
            budget,
            e,
            team,
        ));
    }
}

/// How many dots each cell has.
pub open spec fn dots_shown(data: GameOverlayData) -> u32 {
    if data.game_phase == GAME_PHASE_PENALTY_SHOOTOUT {
        let most = if data.team1_penalty_shot >= data.team2_penalty_shot {
            data.team1_penalty_shot
        } else {
            data.team2_penalty_shot
        };
        if most <= SHOOTOUT_DOT_CAP {
            most
        } else {
            SHOOTOUT_DOT_CAP
        }
    } else {
        0
    }
}

/// The first row.
pub open spec fn row1_marks(p: Place, data: GameOverlayData, e: OverlayExtents) -> Seq<Mark> {
    cell_marks(
        p,
        p.name1_x() + p.name_w / 2,
        dots_shown(data),
        data.team1_penalty_shot,
        data.team1_single_shots,
        data.team1_message_budget,
        e.budget1,
        team_ink(true, data.team1_color),
    ) + seq![
        label(
            p.frame_w / 2 - e.phase.width as int / 2,
            p.y + 1200 * p.u,
            1200 * p.u,
            overlay::phase_label(data.game_phase, data.first_half),
            grey(80, 100),
        ),
    ] + cell_marks(
        p,
        p.name2_x() + p.name_w - p.name_w / 2,
        dots_shown(data),
        data.team2_penalty_shot,
        data.team2_single_shots,
        data.team2_message_budget,
        e.budget2,
        team_ink(false, data.team2_color),
    )
}

fn draw_row1(sheet: &mut Sheet, g: &Grid, data: &GameOverlayData, e: &OverlayExtents)
    requires
        g.small(),
    ensures
        final(sheet)@ == old(sheet)@ + row1_marks(g@, *data, *e),
{
    let total: u32 = if data.game_phase == GAME_PHASE_PENALTY_SHOOTOUT {
        shootout_total_dots(data.team1_penalty_shot, data.team2_penalty_shot)
    } else {
        0
    };
    let name1_x: i128 = g.x + 1200 * g.u + g.segment1;
    let name2_x: i128 = name1_x + g.name_w + 2400 * g.u + 6200 * g.u + 2200 * g.u;
    let phase: String = format_game_phase(data);
    draw_cell(
        sheet,
        g,
        name1_x + half(g.name_w),
        total,
        data.team1_penalty_shot,
        data.team1_single_shots,
        data.team1_message_budget,
        e.budget1,
        team_color(true, data.team1_color),
    );
    sheet.label(
        half(g.frame_w) - half(e.phase.width as i128),
        g.y + 1200 * g.u,
        1200 * g.u,
        phase.as_str(),
        make_grey(80, 100),
    );
    draw_cell(
        sheet,
        g,
        name2_x + g.name_w - half(g.name_w),
        total,
        data.team2_penalty_shot,
        data.team2_single_shots,
        data.team2_message_budget,
        e.budget2,
        team_color(false, data.team2_color),
    );
    assert(sheet@ =~= old(sheet)@ + row1_marks(g@, *data, *e));
}

/// A full-height panel of the second row.
pub open spec fn block(p: Place, x: int, width: int, ink: Ink) -> Mark {
    panel(x, p.row2_y(), width, 2200 * p.u, 300 * p.u, ink)
}

/// The strip in a goalkeeper's colour, if it differs from the field players'.
pub open spec fn strip(p: Place, x: int, gk: Option<JerseyColor>) -> Seq<Mark> {
    match gk {
        Some(c) => seq![block(p, x, 500 * p.u, solid(c))],
        None => Seq::empty(),
    }
}

/// A text on the base line of the second row.
pub open spec fn row2_text(p: Place, x: int, size: int, text: Seq<char>, ink: Ink) -> Mark {
    label(x, p.row2_y() + 1700 * p.u, size, text, ink)
}

/// The left part of the second row: colours, name and score.
pub open spec fn home_marks(p: Place, data: GameOverlayData, e: OverlayExtents) -> Seq<Mark> {
    let team = team_ink(true, data.team1_color);
    seq![block(p, p.x, 1000 * p.u, solid(team))] + strip(
        p,
        p.x + 1200 * p.u,
        data.team1_goalkeeper_color,
    ) + seq![
        row2_text(
            p,
            p.score1_x() - e.name1.width - 600 * p.u,
            1600 * p.u,
            data.team1_name@,
            grey(100, 100),
        ),
        block(p, p.score1_x(), 2200 * p.u, solid(team)),
        row2_text(
            p,
            p.score1_x() + 1100 * p.u - e.score1.width as int / 2,
            2000 * p.u,
            text::decimal(data.team1_score as nat),
            ink_on(team),
        ),
    ]
}

/// The game clock, dimmed while it is stopped.
pub open spec fn clock_marks(p: Place, data: GameOverlayData, e: OverlayExtents) -> Seq<Mark> {
    seq![
        block(p, p.clock_x(), 6000 * p.u, grey(15, 90)),
        row2_text(
            p,
            p.clock_x() + 3000 * p.u - e.game_clock.width as int / 2,
            2000 * p.u,
            overlay::mm_ss(data.secs_remaining as int),
            grey(
                100,
                if data.stopped {
                    60
                } else {
                    100
                },
            ),
        ),
    ]
}

/// The right part of the second row: score, name and colours.
pub open spec fn away_marks(p: Place, data: GameOverlayData, e: OverlayExtents) -> Seq<Mark> {
    let team = team_ink(false, data.team2_color);
    seq![
        block(p, p.score2_x(), 2200 * p.u, solid(team)),
        row2_text(
            p,
            p.score2_x() + 1100 * p.u - e.score2.width as int / 2,
            2000 * p.u,
            text::decimal(data.team2_score as nat),
            ink_on(team),
        ),
        row2_text(p, p.name2_x() + 600 * p.u, 1600 * p.u, data.team2_name@, grey(100, 100)),
    ] + strip(p, p.name2_x() + p.name_w, data.team2_goalkeeper_color) + seq![
        block(p, p.x + p.total_w - 1000 * p.u, 1000 * p.u, solid(team)),
    ]
}

fn draw_block(sheet: &mut Sheet, g: &Grid, x: i128, width: i128, ink: Ink)
    requires
        g.small(),
        moderate(width),
    ensures
        final(sheet)@ == old(sheet)@.push(block(g@, x as int, width as int, ink)),
{
    sheet.panel(x, g.y + 2200 * g.u, width, 2200 * g.u, 300 * g.u, ink);
}

fn draw_strip(sheet: &mut Sheet, g: &Grid, x: i128, gk: Option<JerseyColor>)
    requires
        g.small(),
    ensures
        final(sheet)@ == old(sheet)@ + strip(g@, x as int, gk),
{
    match gk {
        Some(c) => {
            draw_block(sheet, g, x, 500 * g.u, Ink { color: c, percent: 100 });
        },
        None => {},
    }
    assert(sheet@ =~= old(sheet)@ + strip(g@, x as int, gk));
}

fn draw_row2_text(sheet: &mut Sheet, g: &Grid, x: i128, size: i128, text: &str, ink: Ink)
    requires
        g.small(),
    ensures
        final(sheet)@ == old(sheet)@.push(row2_text(g@, x as int, size as int, text@, ink)),
{
    sheet.label(x, g.y + 2200 * g.u + 1700 * g.u, size, text, ink);
}

fn draw_home(sheet: &mut Sheet, g: &Grid, data: &GameOverlayData, e: &OverlayExtents)
    requires
        g.small(),
    ensures
        final(sheet)@ == old(sheet)@ + home_marks(g@, *data, *e),
{
    let team: JerseyColor = team_color(true, data.team1_color);
    let score1_x: i128 = g.x + 1200 * g.u + g.segment1 + g.name_w;
    let score: String = text::decimal_string(data.team1_score as u64);
    draw_block(sheet, g, g.x, 1000 * g.u, Ink { color: team, percent: 100 });
    draw_strip(sheet, g, g.x + 1200 * g.u, data.team1_goalkeeper_color);
    draw_row2_text(
        sheet,
        g,
        score1_x - e.name1.width as i128 - 600 * g.u,
        1600 * g.u,
        data.team1_name.as_str(),
        make_grey(100, 100),
    );
    draw_block(sheet, g, score1_x, 2200 * g.u, Ink { color: team, percent: 100 });
    draw_row2_text(
        sheet,
        g,
        score1_x + 1100 * g.u - half(e.score1.width as i128),
        2000 * g.u,
        score.as_str(),
        make_ink_on(team),
    );
    assert(sheet@ =~= old(sheet)@ + home_marks(g@, *data, *e));
}

fn draw_clock(sheet: &mut Sheet, g: &Grid, data: &GameOverlayData, e: &OverlayExtents)
    requires
        g.small(),
    ensures
        final(sheet)@ == old(sheet)@ + clock_marks(g@, *data, *e),
{
    let clock_x: i128 = g.x + 1200 * g.u + g.segment1 + g.name_w + 2400 * g.u;
    let clock: String = format_mm_ss(data.secs_remaining);
    draw_block(sheet, g, clock_x, 6000 * g.u, make_grey(15, 90));
    let ink: Ink = if data.stopped {
        make_grey(100, 60)
    } else {
        make_grey(100, 100)
    };
    draw_row2_text(
        sheet,
        g,
        clock_x + 3000 * g.u - half(e.game_clock.width as i128),
        2000 * g.u,
        clock.as_str(),
        ink,
    );
    assert(sheet@ =~= old(sheet)@ + clock_marks(g@, *data, *e));
}

fn draw_away(sheet: &mut Sheet, g: &Grid, data: &GameOverlayData, e: &OverlayExtents)
    requires
        g.small(),
    ensures
        final(sheet)@ == old(sheet)@ + away_marks(g@, *data, *e),
{
    let team: JerseyColor = team_color(false, data.team2_color);
    let score2_x: i128 = g.x + 1200 * g.u + g.segment1 + g.name_w + 2400 * g.u + 6200 * g.u;
    let name2_x: i128 = score2_x + 2200 * g.u;
    let score: String = text::decimal_string(data.team2_score as u64);
    draw_block(sheet, g, score2_x, 2200 * g.u, Ink { color: team, percent: 100 });
    draw_row2_text(
        sheet,
        g,
        score2_x + 1100 * g.u - half(e.score2.width as i128),
        2000 * g.u,
        score.as_str(),
        make_ink_on(team),
    );
    draw_row2_text(
        sheet,
        g,
        name2_x + 600 * g.u,
        1600 * g.u,
        data.team2_name.as_str(),
        make_grey(100, 100),
    );
    draw_strip(sheet, g, name2_x + g.name_w, data.team2_goalkeeper_color);
    draw_block(
        sheet,
        g,
        g.x + g.total_w - 1000 * g.u,
        1000 * g.u,
        Ink { color: team, percent: 100 },
    );
    assert(sheet@ =~= old(sheet)@ + away_marks(g@, *data, *e));
}

/// The scoreboard: its backing and its three rows.
pub open spec fn scoreboard_marks(
    data: GameOverlayData,
    e: OverlayExtents,
    width: u32,
    height: u32,
) -> Seq<Mark> {
    let p = place_of(data, e, width, height);
    seq![
        panel(
            p.x - 600 * p.u,
            p.y - 600 * p.u,
            p.total_w + 1200 * p.u,
            8400 * p.u,
            300 * p.u,
            grey(0, 65),
        ),
    ] + row1_marks(p, data, e) + home_marks(p, data, e) + clock_marks(p, data, e) + away_marks(
        p,
        data,
        e,
    ) + seq![
        label(
            p.frame_w / 2 - e.state_line.width as int / 2,
            p.y + 5800 * p.u,
            1200 * p.u,
            overlay::state_line_of(
                data,
                overlay::lowercase(data.state@),
                overlay::lowercase(data.set_play@),
            ),
            grey(90, 100),
        ),
    ]
}

fn draw_scoreboard(
    sheet: &mut Sheet,
    data: &GameOverlayData,
    e: &OverlayExtents,
    width: u32,
    height: u32,
)
    ensures
        final(sheet)@ == old(sheet)@ + scoreboard_marks(*data, *e, width, height),
{
    let g: Grid = make_grid(data, e, width, height);
    let state: String = format_state_line(data);
    sheet.panel(
        g.x - 600 * g.u,
        g.y - 600 * g.u,
        g.total_w + 1200 * g.u,
        8400 * g.u,
        300 * g.u,
        make_grey(0, 65),
    );
    draw_row1(sheet, &g, data, e);
    draw_home(sheet, &g, data, e);
    draw_clock(sheet, &g, data, e);
    draw_away(sheet, &g, data, e);
    sheet.label(
        half(g.frame_w) - half(e.state_line.width as i128),
        g.y + 5800 * g.u,
        1200 * g.u,
        state.as_str(),
        make_grey(90, 100),
    );
    assert(sheet@ =~= old(sheet)@ + scoreboard_marks(*data, *e, width, height));
}

/// A text in a dark pill at the top.
pub open spec fn pill_marks(x: int, u: int, text: Seq<char>, e: Extent) -> Seq<Mark> {
    seq![
        panel(x, 1000 * u, e.width + 1600 * u, e.height + 800 * u, 400 * u, grey(0, 70)),
        label(x + 800 * u, 1400 * u + e.height, 1600 * u, text, grey(100, 100)),
    ]
}

fn draw_pill(sheet: &mut Sheet, x: i128, u: i128, text: &str, e: Extent)
    requires
        0 <= u <= 0x2_0000_0000,
        moderate(x),
    ensures
        final(sheet)@ == old(sheet)@ + pill_marks(x as int, u as int, text@, e),
{
    sheet.panel(
        x,
        1000 * u,
        e.width as i128 + 1600 * u,
        e.height as i128 + 800 * u,
        400 * u,
        make_grey(0, 70),
    );
    sheet.label(x + 800 * u, 1400 * u + e.height as i128, 1600 * u, text, make_grey(100, 100));
    assert(sheet@ =~= old(sheet)@ + pill_marks(x as int, u as int, text@, e));
}

/// Everything that is drawn over a frame: the field's name, the time of day,
/// the scoreboard, and the penalty cards of both teams.
pub open spec fn overlay_marks(
    data: GameOverlayData,
    clock_text: Seq<char>,
    e: OverlayExtents,
    width: u32,
    height: u32,
) -> Seq<Mark> {
    let u = 2 * width as int;
    let frame_h = 192_000 * height as int;
    pill_marks(1000 * u, u, data.field_name@, e.field_name) + pill_marks(
        96_000 * u - 1000 * u - (e.wall_clock.width + 1600 * u),
        u,
        clock_text,
        e.wall_clock,
    ) + scoreboard_marks(data, e, width, height) + column_marks(
        1000 * u,
        frame_h,
        u,
        data.team1_penalties@,
        e.cards1@,
        team_ink(true, data.team1_color),
        data.team1_goalkeeper,
        data.team1_penalties@.len(),
    ) + column_marks(
        96_000 * u - 1000 * u - 8000 * u,
        frame_h,
        u,
        data.team2_penalties@,
        e.cards2@,
        team_ink(false, data.team2_color),
        data.team2_goalkeeper,
        data.team2_penalties@.len(),
    )
}

/// The time of day that is drawn over a frame: hours, minutes and seconds. Which
/// they are depends on the time and the time zone.
pub fn clock_text() -> (s: String)
    ensures
        clock::is_clock_text(s@),
{
    clock::wall_clock()
}

/// Lay out what is drawn over a frame, given how large each text is.
pub fn draw_overlay(
    data: &GameOverlayData,
    clock_text: &str,
    e: &OverlayExtents,
    width: u32,
    height: u32,
) -> (strokes: Vec<Stroke>)
    requires
        e.cards1@.len() == data.team1_penalties@.len(),
        e.cards2@.len() == data.team2_penalties@.len(),
    ensures
        marks(strokes@) == overlay_marks(*data, clock_text@, *e, width, height),
{
    let u: i128 = 2 * (width as i128);
    let frame_h: i128 = 192_000 * (height as i128);
    let mut sheet: Sheet = Sheet { strokes: Vec::new() };
    assert(sheet@ =~= Seq::<Mark>::empty());
    draw_pill(&mut sheet, 1000 * u, u, data.field_name.as_str(), e.field_name);
    let clock_x: i128 = 96_000 * u - 1000 * u - (e.wall_clock.width as i128 + 1600 * u);
    draw_pill(&mut sheet, clock_x, u, clock_text, e.wall_clock);
    draw_scoreboard(&mut sheet, data, e, width, height);
    draw_penalty_cards(
        &mut sheet,
        1000 * u,
        frame_h,
        u,
        &data.team1_penalties,
        &e.cards1,
        team_color(true, data.team1_color),
        data.team1_goalkeeper,
    );
    draw_penalty_cards(
        &mut sheet,
        96_000 * u - 1000 * u - 8000 * u,
        frame_h,
        u,
        &data.team2_penalties,
        &e.cards2,
        team_color(false, data.team2_color),
        data.team2_goalkeeper,
    );
    assert(sheet@ =~= overlay_marks(*data, clock_text@, *e, width, height));
    sheet.strokes
}

// What holds of every layout.

/// The scoreboard leaves the same room at its left and at its right, up to one
/// unit, and its second row fills it from end to end.
pub proof fn law_scoreboard_centred(data: GameOverlayData, e: OverlayExtents, width: u32, height: u32)
    ensures
        ({
            let p = place_of(data, e, width, height);
            let right = p.frame_w - (p.x + p.total_w);
            &&& p.x <= right <= p.x + 1
            &&& p.name2_x() + p.name_w + p.segment2 + 200 * p.u == p.x + p.total_w - 1000 * p.u
        }),
{
}

/// The lowest card of a column stands on the bottom margin, and each card is
/// four reference pixels above the next.
pub proof fn law_cards_stack_up(frame_h: int, u: int, n: int, i: int)
    requires
        0 <= i < n,
    ensures
        card_y(frame_h, u, n, n - 1) + 5400 * u == frame_h - 1000 * u,
        card_y(frame_h, u, n, i + 1) == card_y(frame_h, u, n, i) + 5400 * u + 400 * u,
{
    assert((n - 1) * (5800 * u) == n * (5800 * u) - 5800 * u) by (nonlinear_arith);
    assert((i + 1) * (5800 * u) == i * (5800 * u) + 5800 * u) by (nonlinear_arith);
}

} // verus!
