//! Where the vector overlay puts what it shows, read off the finished drawing.
use crate::overlay;
use crate::overlay::{DotState, GameOverlayData, PenaltyCard};
use crate::renderer::color;
use crate::teams::JerseyColor;
use crate::text;
use crate::vector_overlay;
use crate::vector_overlay::{CardExtents, Extent, Ink, Mark, OverlayExtents};
use vstd::prelude::*;

verus! {

// How laws speak of a drawing.

/// A rectangle of the drawing, whatever its corners.
pub open spec fn slab(d: Seq<Mark>, left: int, right: int, top: int, high: int, inked: Ink) -> bool {
    exists|r: int| #[trigger]
        d.contains(
            Mark::Panel { x: left, y: top, width: right - left, height: high, radius: r, ink: inked },
        )
}

/// A text of the drawing.
pub open spec fn written(d: Seq<Mark>, x: int, y: int, size: int, text: Seq<char>, ink: Ink) -> bool {
    d.contains(Mark::Label { x, y, size, text, ink })
}

/// A text of the drawing whose middle lies in the middle between two edges, up to
/// a unit.
pub open spec fn written_between(
    d: Seq<Mark>,
    left: int,
    right: int,
    y: int,
    size: int,
    text: Seq<char>,
    e: Extent,
    ink: Ink,
) -> bool {
    exists|x: int| #[trigger]
        written(d, x, y, size, text, ink) && -2 <= (2 * x + e.width) - (left + right) <= 2
}

/// A grey of so many hundredths of white.
pub open spec fn shade(hundredths: u16, percent: u8) -> Ink {
    let v = (51 * hundredths) as u16;
    Ink { color: JerseyColor { r: v, g: v, b: v }, percent }
}

/// The colour of the team on the left, red where it has none.
pub open spec fn color1(data: GameOverlayData) -> JerseyColor {
    match data.team1_color {
        Some(c) => c,
        None => JerseyColor { r: 4335, g: 510, b: 510 },
    }
}

/// The colour of the team on the right, blue where it has none.
pub open spec fn color2(data: GameOverlayData) -> JerseyColor {
    match data.team2_color {
        Some(c) => c,
        None => JerseyColor { r: 510, g: 1020, b: 4335 },
    }
}

pub open spec fn full(c: JerseyColor) -> Ink {
    Ink { color: c, percent: 100 }
}

/// Black on a bright colour, white on a dark one.
pub open spec fn readable_on(c: JerseyColor) -> Ink {
    if color::luminance(c.r as int, c.g as int, c.b as int) > 3_060_000 {
        shade(0, 100)
    } else {
        shade(100, 100)
    }
}

/// The boxes of the middle row: the score of the first team from `score1`, the
/// clock from `clock` and the score of the second team from `score2`. The name of
/// the first team lies to the left of them from `name1`, that of the second to the
/// right up to `end`.
pub struct Row {
    pub y: int,
    pub name1: int,
    pub score1: int,
    pub clock: int,
    pub score2: int,
    pub end: int,
}

/// The boxes are in the drawing, from left to right, each score box in its team's
/// colour, in the middle row above the bottom margin.
pub open spec fn has_row(d: Seq<Mark>, r: Row, data: GameOverlayData, width: u32, height: u32) -> bool {
    let u = 2 * width as int;
    &&& slab(d, r.score1, r.score1 + 2200 * u, r.y, 2200 * u, full(color1(data)))
    &&& slab(d, r.clock, r.clock + 6000 * u, r.y, 2200 * u, shade(15, 90))
    &&& slab(d, r.score2, r.score2 + 2200 * u, r.y, 2200 * u, full(color2(data)))
    &&& r.score1 + 2400 * u == r.clock
    &&& r.clock + 6200 * u == r.score2
    &&& r.score1 - r.name1 == r.end - (r.score2 + 2200 * u)
    &&& r.y == 192_000 * height - 6600 * u
}

// Reading a drawing.

proof fn lemma_contains_sum(a: Seq<Mark>, b: Seq<Mark>, x: Mark)
    ensures
        a.contains(x) || b.contains(x) ==> (a + b).contains(x),
{
    if a.contains(x) {
        let i = choose|i: int| 0 <= i < a.len() && a[i] == x;
        assert((a + b)[i] == x);
    }
    if b.contains(x) {
        let i = choose|i: int| 0 <= i < b.len() && b[i] == x;
        assert((a + b)[a.len() + i] == x);
    }
}

/// The parts of the drawing.
spec fn part(
    data: GameOverlayData,
    clock: Seq<char>,
    e: OverlayExtents,
    width: u32,
    height: u32,
    k: int,
) -> Seq<Mark> {
    let u = 2 * width as int;
    let frame_h = 192_000 * height as int;
    if k == 0 {
        vector_overlay::pill_marks(1000 * u, u, data.field_name@, e.field_name)
    } else if k == 1 {
        vector_overlay::pill_marks(
            96_000 * u - 1000 * u - (e.wall_clock.width + 1600 * u),
            u,
            clock,
            e.wall_clock,
        )
    } else if k == 2 {
        vector_overlay::scoreboard_marks(data, e, width, height)
    } else if k == 3 {
        vector_overlay::column_marks(
            1000 * u,
            frame_h,
            u,
            data.team1_penalties@,
            e.cards1@,
            vector_overlay::team_ink(true, data.team1_color),
            data.team1_goalkeeper,
            data.team1_penalties@.len(),
        )
    } else {
        vector_overlay::column_marks(
            96_000 * u - 1000 * u - 8000 * u,
            frame_h,
            u,
            data.team2_penalties@,
            e.cards2@,
            vector_overlay::team_ink(false, data.team2_color),
            data.team2_goalkeeper,
            data.team2_penalties@.len(),
        )
    }
}

proof fn lemma_part(
    data: GameOverlayData,
    clock: Seq<char>,
    e: OverlayExtents,
    width: u32,
    height: u32,
    k: int,
    x: Mark,
)
    requires
        0 <= k < 5,
        part(data, clock, e, width, height, k).contains(x),
    ensures
        vector_overlay::overlay_marks(data, clock, e, width, height).contains(x),
{
    let p0 = part(data, clock, e, width, height, 0);
    let p1 = part(data, clock, e, width, height, 1);
    let p2 = part(data, clock, e, width, height, 2);
    let p3 = part(data, clock, e, width, height, 3);
    let p4 = part(data, clock, e, width, height, 4);
    lemma_contains_sum(p0, p1, x);
    lemma_contains_sum(p0 + p1, p2, x);
    lemma_contains_sum(p0 + p1 + p2, p3, x);
    lemma_contains_sum(p0 + p1 + p2 + p3, p4, x);
    assert(vector_overlay::overlay_marks(data, clock, e, width, height) == p0 + p1 + p2 + p3 + p4);
}

/// The parts of the scoreboard.
spec fn piece(data: GameOverlayData, e: OverlayExtents, width: u32, height: u32, k: int) -> Seq<Mark> {
    let p = vector_overlay::place_of(data, e, width, height);
    if k == 0 {
        seq![
            vector_overlay::panel(
                p.x - 600 * p.u,
                p.y - 600 * p.u,
                p.total_w + 1200 * p.u,
                8400 * p.u,
                300 * p.u,
                vector_overlay::grey(0, 65),
            ),
        ]
    } else if k == 1 {
        vector_overlay::row1_marks(p, data, e)
    } else if k == 2 {
        vector_overlay::home_marks(p, data, e)
    } else if k == 3 {
        vector_overlay::clock_marks(p, data, e)
    } else if k == 4 {
        vector_overlay::away_marks(p, data, e)
    } else {
        seq![
            vector_overlay::label(
                p.frame_w / 2 - e.state_line.width as int / 2,
                p.y + 5800 * p.u,
                1200 * p.u,
                overlay::state_line_of(
                    data,
                    overlay::lowercase(data.state@),
                    overlay::lowercase(data.set_play@),
                ),
                vector_overlay::grey(90, 100),
            ),
        ]
    }
}

/// What a part of the scoreboard draws, the whole drawing holds.
proof fn lemma_piece(
    data: GameOverlayData,
    clock: Seq<char>,
    e: OverlayExtents,
    width: u32,
    height: u32,
    k: int,
    i: int,
)
    requires
        0 <= k < 6,
        0 <= i < piece(data, e, width, height, k).len(),
    ensures
        vector_overlay::overlay_marks(data, clock, e, width, height).contains(
            piece(data, e, width, height, k)[i],
        ),
{
    let x = piece(data, e, width, height, k)[i];
    assert(piece(data, e, width, height, k).contains(x));
    let p0 = piece(data, e, width, height, 0);
    let p1 = piece(data, e, width, height, 1);
    let p2 = piece(data, e, width, height, 2);
    let p3 = piece(data, e, width, height, 3);
    let p4 = piece(data, e, width, height, 4);
    let p5 = piece(data, e, width, height, 5);
    lemma_contains_sum(p0, p1, x);
    lemma_contains_sum(p0 + p1, p2, x);
    lemma_contains_sum(p0 + p1 + p2, p3, x);
    lemma_contains_sum(p0 + p1 + p2 + p3, p4, x);
    lemma_contains_sum(p0 + p1 + p2 + p3 + p4, p5, x);
    assert(vector_overlay::scoreboard_marks(data, e, width, height) == p0 + p1 + p2 + p3 + p4 + p5);
    lemma_part(data, clock, e, width, height, 2, x);
}

proof fn lemma_slab(d: Seq<Mark>, x: int, y: int, w: int, h: int, r: int, ink: Ink)
    requires
        d.contains(vector_overlay::panel(x, y, w, h, r, ink)),
    ensures
        slab(d, x, x + w, y, h, ink),
{
    let c = vector_overlay::corner(r, w, h);
    assert(d.contains(
        Mark::Panel { x, y, width: (x + w) - x, height: h, radius: c, ink },
    ));
}

spec fn row_of(p: vector_overlay::Place) -> Row {
    Row {
        y: p.row2_y(),
        name1: p.name1_x(),
        score1: p.score1_x(),
        clock: p.clock_x(),
        score2: p.score2_x(),
        end: p.name2_x() + p.name_w,
    }
}

proof fn lemma_row(
    data: GameOverlayData,
    clock: Seq<char>,
    e: OverlayExtents,
    width: u32,
    height: u32,
) -> (r: Row)
    ensures
        r == row_of(vector_overlay::place_of(data, e, width, height)),
        has_row(
            vector_overlay::overlay_marks(data, clock, e, width, height),
            r,
            data,
            width,
            height,
        ),
{
    let d = vector_overlay::overlay_marks(data, clock, e, width, height);
    let p = vector_overlay::place_of(data, e, width, height);
    let h: int = if data.team1_goalkeeper_color is Some {
        3
    } else {
        2
    };
    lemma_piece(data, clock, e, width, height, 2, h);
    lemma_slab(
        d,
        p.score1_x(),
        p.row2_y(),
        2200 * p.u,
        2200 * p.u,
        300 * p.u,
        full(color1(data)),
    );
    lemma_piece(data, clock, e, width, height, 3, 0);
    assert(vector_overlay::grey(15, 90) == shade(15, 90));
    lemma_slab(d, p.clock_x(), p.row2_y(), 6000 * p.u, 2200 * p.u, 300 * p.u, shade(15, 90));
    lemma_piece(data, clock, e, width, height, 4, 0);
    lemma_slab(
        d,
        p.score2_x(),
        p.row2_y(),
        2200 * p.u,
        2200 * p.u,
        300 * p.u,
        full(color2(data)),
    );
    row_of(p)
}

// Laws.

/// The first team's name ends in front of the box of that team's colour, which
/// holds that team's score, to the left of the clock; the second team's name begins
/// behind its own box, which holds its own score, to the right of the clock. The
/// clock is dimmed while it is stopped.
#[verifier::rlimit(60)]
pub proof fn law_names_scores_and_clock_in_place(
    data: GameOverlayData,
    clock: Seq<char>,
    e: OverlayExtents,
    width: u32,
    height: u32,
) -> (r: Row)
    ensures
        ({
            let d = vector_overlay::overlay_marks(data, clock, e, width, height);
            let u = 2 * width as int;
            let base = r.y + 1700 * u;
            let dim: u8 = if data.stopped {
                60
            } else {
                100
            };
            &&& has_row(d, r, data, width, height)
            &&& written(
                d,
                r.score1 - 600 * u - e.name1.width,
                base,
                1600 * u,
                data.team1_name@,
                shade(100, 100),
            )
            &&& written_between(
                d,
                r.score1,
                r.score1 + 2200 * u,
                base,
                2000 * u,
                text::decimal(data.team1_score as nat),
                e.score1,
                readable_on(color1(data)),
            )
            &&& written_between(
                d,
                r.clock,
                r.clock + 6000 * u,
                base,
                2000 * u,
                overlay::mm_ss(data.secs_remaining as int),
                e.game_clock,
                shade(100, dim),
            )
            &&& written_between(
                d,
                r.score2,
                r.score2 + 2200 * u,
                base,
                2000 * u,
                text::decimal(data.team2_score as nat),
                e.score2,
                readable_on(color2(data)),
            )
            &&& written(
                d,
                r.score2 + 2200 * u + 600 * u,
                base,
                1600 * u,
                data.team2_name@,
                shade(100, 100),
            )
        }),
{
    let d = vector_overlay::overlay_marks(data, clock, e, width, height);
    let r = lemma_row(data, clock, e, width, height);
    let p = vector_overlay::place_of(data, e, width, height);
    let u = p.u;
    let base = r.y + 1700 * u;
    let h: int = if data.team1_goalkeeper_color is Some {
        2
    } else {
        1
    };
    assert(vector_overlay::grey(100, 100) == shade(100, 100));
    assert(vector_overlay::grey(0, 100) == shade(0, 100));
    assert(vector_overlay::grey(100, 60) == shade(100, 60));
    lemma_piece(data, clock, e, width, height, 2, h);
    lemma_piece(data, clock, e, width, height, 2, h + 2);
    let x1 = p.score1_x() + 1100 * u - e.score1.width as int / 2;
    assert(written(
        d,
        x1,
        base,
        2000 * u,
        text::decimal(data.team1_score as nat),
        readable_on(color1(data)),
    ));
    lemma_piece(data, clock, e, width, height, 3, 1);
    let dim: u8 = if data.stopped {
        60
    } else {
        100
    };
    let xc = p.clock_x() + 3000 * u - e.game_clock.width as int / 2;
    assert(written(
        d,
        xc,
        base,
        2000 * u,
        overlay::mm_ss(data.secs_remaining as int),
        shade(100, dim),
    ));
    lemma_piece(data, clock, e, width, height, 4, 1);
    lemma_piece(data, clock, e, width, height, 4, 2);
    let x2 = p.score2_x() + 1100 * u - e.score2.width as int / 2;
    assert(written(
        d,
        x2,
        base,
        2000 * u,
        text::decimal(data.team2_score as nat),
        readable_on(color2(data)),
    ));
    assert(written(
        d,
        p.name2_x() + 600 * u,
        base,
        1600 * u,
        data.team2_name@,
        shade(100, 100),
    ));
    r
}

/// At both ends of the middle row stands a block of the team's colour, and beside
/// it a strip of its goalkeeper's where that is another. The row is centred, over a
/// backing that surrounds all three rows.
#[verifier::rlimit(60)]
pub proof fn law_colours_at_the_ends(
    data: GameOverlayData,
    clock: Seq<char>,
    e: OverlayExtents,
    width: u32,
    height: u32,
) -> (r: (Row, int, int))
    ensures
        ({
            let d = vector_overlay::overlay_marks(data, clock, e, width, height);
            let (row, left, right) = r;
            let u = 2 * width as int;
            &&& has_row(d, row, data, width, height)
            &&& 0 <= 96_000 * u - (left + right) <= 1
            &&& slab(d, left, left + 1000 * u, row.y, 2200 * u, full(color1(data)))
            &&& slab(d, right - 1000 * u, right, row.y, 2200 * u, full(color2(data)))
            &&& match data.team1_goalkeeper_color {
                Some(g) => {
                    &&& left + 1900 * u == row.name1
                    &&& slab(d, left + 1200 * u, left + 1700 * u, row.y, 2200 * u, full(g))
                },
                None => left + 1200 * u == row.name1,
            }
            &&& match data.team2_goalkeeper_color {
                Some(g) => {
                    &&& right - 1900 * u == row.end
                    &&& slab(d, right - 1900 * u, right - 1400 * u, row.y, 2200 * u, full(g))
                },
                None => right - 1200 * u == row.end,
            }
            &&& slab(
                d,
                left - 600 * u,
                right + 600 * u,
                row.y - 2800 * u,
                8400 * u,
                shade(0, 65),
            )
            &&& row.score1 - row.name1 >= e.name1.width + 1200 * u
            &&& row.score1 - row.name1 >= e.name2.width + 1200 * u
            &&& row.score1 - row.name1 == e.name1.width + 1200 * u || row.score1 - row.name1
                == e.name2.width + 1200 * u
        }),
{
    let d = vector_overlay::overlay_marks(data, clock, e, width, height);
    let row = lemma_row(data, clock, e, width, height);
    let p = vector_overlay::place_of(data, e, width, height);
    let u = p.u;
    let right = p.x + p.total_w;
    let away = piece(data, e, width, height, 4);
    lemma_piece(data, clock, e, width, height, 2, 0);
    lemma_slab(d, p.x, p.row2_y(), 1000 * u, 2200 * u, 300 * u, full(color1(data)));
    lemma_piece(data, clock, e, width, height, 4, away.len() - 1);
    lemma_slab(d, right - 1000 * u, p.row2_y(), 1000 * u, 2200 * u, 300 * u, full(color2(data)));
    if data.team1_goalkeeper_color is Some {
        let g = data.team1_goalkeeper_color->0;
        lemma_piece(data, clock, e, width, height, 2, 1);
        lemma_slab(d, p.x + 1200 * u, p.row2_y(), 500 * u, 2200 * u, 300 * u, full(g));
        assert(p.x + 1200 * u + 500 * u == p.x + 1700 * u);
    }
    if data.team2_goalkeeper_color is Some {
        let g = data.team2_goalkeeper_color->0;
        lemma_piece(data, clock, e, width, height, 4, 3);
        lemma_slab(d, p.name2_x() + p.name_w, p.row2_y(), 500 * u, 2200 * u, 300 * u, full(g));
        assert(p.name2_x() + p.name_w == right - 1900 * u);
        assert(p.name2_x() + p.name_w + 500 * u == right - 1400 * u);
    }
    lemma_piece(data, clock, e, width, height, 0, 0);
    assert(vector_overlay::grey(0, 65) == shade(0, 65));
    lemma_slab(
        d,
        p.x - 600 * u,
        p.y - 600 * u,
        p.total_w + 1200 * u,
        8400 * u,
        300 * u,
        shade(0, 65),
    );
    assert(p.x - 600 * u + (p.total_w + 1200 * u) == right + 600 * u);
    (row, p.x, right)
}

/// The phase stands in the middle above the row, the state line in the middle
/// below it.
pub proof fn law_phase_above_state_line_below(
    data: GameOverlayData,
    clock: Seq<char>,
    e: OverlayExtents,
    width: u32,
    height: u32,
) -> (r: Row)
    ensures
        ({
            let d = vector_overlay::overlay_marks(data, clock, e, width, height);
            let u = 2 * width as int;
            &&& has_row(d, r, data, width, height)
            &&& written_between(
                d,
                0,
                96_000 * u,
                r.y - 1000 * u,
                1200 * u,
                overlay::phase_label(data.game_phase, data.first_half),
                e.phase,
                shade(80, 100),
            )
            &&& written_between(
                d,
                0,
                96_000 * u,
                r.y + 3600 * u,
                1200 * u,
                overlay::state_line_of(
                    data,
                    overlay::lowercase(data.state@),
                    overlay::lowercase(data.set_play@),
                ),
                e.state_line,
                shade(90, 100),
            )
        }),
{
    let d = vector_overlay::overlay_marks(data, clock, e, width, height);
    let r = lemma_row(data, clock, e, width, height);
    let p = vector_overlay::place_of(data, e, width, height);
    let u = p.u;
    let top = piece(data, e, width, height, 1);
    let shown = vector_overlay::dots_shown(data);
    let n: int = if shown > 0 {
        shown as int
    } else {
        1
    };
    lemma_piece(data, clock, e, width, height, 1, n);
    assert(vector_overlay::grey(80, 100) == shade(80, 100));
    assert(vector_overlay::grey(90, 100) == shade(90, 100));
    let phase = overlay::phase_label(data.game_phase, data.first_half);
    let x = p.frame_w / 2 - e.phase.width as int / 2;
    assert(top[n] == vector_overlay::label(
        x,
        p.y + 1200 * u,
        1200 * u,
        phase,
        shade(80, 100),
    ));
    assert(written(d, x, r.y - 1000 * u, 1200 * u, phase, shade(80, 100)));
    lemma_piece(data, clock, e, width, height, 5, 0);
    let line = overlay::state_line_of(
        data,
        overlay::lowercase(data.state@),
        overlay::lowercase(data.set_play@),
    );
    let xl = p.frame_w / 2 - e.state_line.width as int / 2;
    assert(written(d, xl, r.y + 3600 * u, 1200 * u, line, shade(90, 100)));
    r
}

/// Outside of a shoot-out, and in one before its first shot, each team's message
/// budget stands over that team's name.
pub proof fn law_budget_over_each_name(
    data: GameOverlayData,
    clock: Seq<char>,
    e: OverlayExtents,
    width: u32,
    height: u32,
) -> (r: Row)
    requires
        data.game_phase != 1 || data.team1_penalty_shot == 0 && data.team2_penalty_shot == 0,
    ensures
        ({
            let d = vector_overlay::overlay_marks(data, clock, e, width, height);
            let u = 2 * width as int;
            &&& has_row(d, r, data, width, height)
            &&& written_between(
                d,
                r.name1,
                r.score1,
                r.y - 1000 * u,
                1200 * u,
                "msg "@ + text::decimal(data.team1_message_budget as nat),
                e.budget1,
                shade(80, 100),
            )
            &&& written_between(
                d,
                r.score2 + 2200 * u,
                r.end,
                r.y - 1000 * u,
                1200 * u,
                "msg "@ + text::decimal(data.team2_message_budget as nat),
                e.budget2,
                shade(80, 100),
            )
        }),
{
    let d = vector_overlay::overlay_marks(data, clock, e, width, height);
    let r = lemma_row(data, clock, e, width, height);
    let p = vector_overlay::place_of(data, e, width, height);
    let u = p.u;
    let top = piece(data, e, width, height, 1);
    assert(vector_overlay::grey(80, 100) == shade(80, 100));
    assert(vector_overlay::dots_shown(data) == 0);
    lemma_piece(data, clock, e, width, height, 1, 0);
    lemma_piece(data, clock, e, width, height, 1, 2);
    let t1 = "msg "@ + text::decimal(data.team1_message_budget as nat);
    let x1 = p.name1_x() + p.name_w / 2 - e.budget1.width as int / 2;
    assert(top[0] == vector_overlay::label(x1, p.y + 1200 * u, 1200 * u, t1, shade(80, 100)));
    assert(written(d, x1, r.y - 1000 * u, 1200 * u, t1, shade(80, 100)));
    let t2 = "msg "@ + text::decimal(data.team2_message_budget as nat);
    let x2 = p.name2_x() + p.name_w - p.name_w / 2 - e.budget2.width as int / 2;
    assert(top[2] == vector_overlay::label(x2, p.y + 1200 * u, 1200 * u, t2, shade(80, 100)));
    assert(written(d, x2, r.y - 1000 * u, 1200 * u, t2, shade(80, 100)));
    r
}

/// Each of the first two things drawn, and their edges: the field's name in the top
/// left corner, the time of day in the top right one.
pub proof fn law_pills_at_the_top(
    data: GameOverlayData,
    clock: Seq<char>,
    e: OverlayExtents,
    width: u32,
    height: u32,
)
    ensures
        ({
            let d = vector_overlay::overlay_marks(data, clock, e, width, height);
            let u = 2 * width as int;
            let (name, time) = (e.field_name, e.wall_clock);
            &&& slab(
                d,
                1000 * u,
                2600 * u + name.width,
                1000 * u,
                name.height + 800 * u,
                shade(0, 70),
            )
            &&& written(
                d,
                1800 * u,
                1400 * u + name.height,
                1600 * u,
                data.field_name@,
                shade(100, 100),
            )
            &&& slab(
                d,
                93_400 * u - time.width,
                95_000 * u,
                1000 * u,
                time.height + 800 * u,
                shade(0, 70),
            )
            &&& written(
                d,
                94_200 * u - time.width,
                1400 * u + time.height,
                1600 * u,
                clock,
                shade(100, 100),
            )
        }),
{
    let d = vector_overlay::overlay_marks(data, clock, e, width, height);
    let u = 2 * width as int;
    let (name, time) = (e.field_name, e.wall_clock);
    assert(vector_overlay::grey(0, 70) == shade(0, 70));
    assert(vector_overlay::grey(100, 100) == shade(100, 100));
    let a = part(data, clock, e, width, height, 0);
    let b = part(data, clock, e, width, height, 1);
    assert(a.contains(a[0]) && a.contains(a[1]) && b.contains(b[0]) && b.contains(b[1]));
    lemma_part(data, clock, e, width, height, 0, a[0]);
    lemma_part(data, clock, e, width, height, 0, a[1]);
    lemma_part(data, clock, e, width, height, 1, b[0]);
    lemma_part(data, clock, e, width, height, 1, b[1]);
    lemma_slab(
        d,
        1000 * u,
        1000 * u,
        name.width + 1600 * u,
        name.height + 800 * u,
        400 * u,
        shade(0, 70),
    );
    assert(1000 * u + (name.width + 1600 * u) == 2600 * u + name.width);
    let x = 96_000 * u - 1000 * u - (time.width + 1600 * u);
    lemma_slab(
        d,
        x,
        1000 * u,
        time.width + 1600 * u,
        time.height + 800 * u,
        400 * u,
        shade(0, 70),
    );
    assert(x == 93_400 * u - time.width && x + (time.width + 1600 * u) == 95_000 * u);
}

/// A dot of a shoot-out: filled for a goal, a ring in the team's colour for a miss, a
/// faint ring for a shot that is still to come.
pub open spec fn dot_at(d: Seq<Mark>, x: int, y: int, u: int, state: DotState, team: JerseyColor) -> bool {
    match state {
        DotState::Scored => d.contains(
            Mark::Dot { x, y, radius: 300 * u, line: None, ink: full(team) },
        ),
        DotState::Missed => d.contains(
            Mark::Dot { x, y, radius: 300 * u, line: Some(150 * u), ink: full(team) },
        ),
        DotState::Upcoming => d.contains(
            Mark::Dot { x, y, radius: 300 * u, line: Some(100 * u), ink: shade(70, 30) },
        ),
    }
}

/// In a shoot-out with shots each team has a row of dots over its name, one for
/// each shot of the team that has taken more, up to ten. Dot `i` tells of the
/// team's own shot `i`: whether it was taken, and whether it scored.
#[verifier::rlimit(60)]
pub proof fn law_dots_over_each_name(
    data: GameOverlayData,
    clock: Seq<char>,
    e: OverlayExtents,
    width: u32,
    height: u32,
    i: int,
) -> (r: (Row, int, int))
    requires
        data.game_phase == 1,
        0 <= i < 10,
        i < data.team1_penalty_shot || i < data.team2_penalty_shot,
    ensures
        ({
            let d = vector_overlay::overlay_marks(data, clock, e, width, height);
            let (row, x1, x2) = r;
            let u = 2 * width as int;
            let most = if data.team1_penalty_shot >= data.team2_penalty_shot {
                data.team1_penalty_shot as int
            } else {
                data.team2_penalty_shot as int
            };
            let n = if most <= 10 {
                most
            } else {
                10
            };
            let span = 900 * u * n - 300 * u;
            &&& has_row(d, row, data, width, height)
            &&& -2 <= (2 * x1 + span) - (row.name1 + row.score1) <= 2
            &&& -2 <= (2 * x2 + span) - (row.score2 + 2200 * u + row.end) <= 2
            &&& dot_at(
                d,
                x1 + 300 * u + 900 * u * i,
                row.y - 1600 * u,
                u,
                overlay::dot(data.team1_penalty_shot, data.team1_single_shots, i),
                color1(data),
            )
            &&& dot_at(
                d,
                x2 + 300 * u + 900 * u * i,
                row.y - 1600 * u,
                u,
                overlay::dot(data.team2_penalty_shot, data.team2_single_shots, i),
                color2(data),
            )
        }),
{
    let d = vector_overlay::overlay_marks(data, clock, e, width, height);
    let row = lemma_row(data, clock, e, width, height);
    let p = vector_overlay::place_of(data, e, width, height);
    let u = p.u;
    let n = vector_overlay::dots_shown(data) as int;
    assert(vector_overlay::grey(70, 30) == shade(70, 30));
    let span = n * (600 * u) + (n - 1) * (300 * u);
    assert(span == 900 * u * n - 300 * u) by (nonlinear_arith)
        requires
            span == n * (600 * u) + (n - 1) * (300 * u),
    ;
    assert(i * (900 * u) == 900 * u * i) by (nonlinear_arith);
    let c1 = p.name1_x() + p.name_w / 2;
    let c2 = p.name2_x() + p.name_w - p.name_w / 2;
    let x1 = c1 - span / 2;
    let x2 = c2 - span / 2;
    let top = piece(data, e, width, height, 1);
    lemma_piece(data, clock, e, width, height, 1, i);
    lemma_piece(data, clock, e, width, height, 1, n + 1 + i);
    assert(top[i] == vector_overlay::dot_mark(
        x1 + 300 * u + i * (900 * u),
        p.y + 600 * u,
        u,
        overlay::dot(data.team1_penalty_shot, data.team1_single_shots, i),
        color1(data),
    ));
    assert(top[n + 1 + i] == vector_overlay::dot_mark(
        x2 + 300 * u + i * (900 * u),
        p.y + 600 * u,
        u,
        overlay::dot(data.team2_penalty_shot, data.team2_single_shots, i),
        color2(data),
    ));
    (row, x1, x2)
}

/// A penalty card with its top left corner at `(x, y)`: the robot's number on the
/// team's colour, below it the time that is left, below that the reason, each in
/// the middle; and for the goalkeeper a badge in the corner.
pub open spec fn card_drawn(
    d: Seq<Mark>,
    x: int,
    y: int,
    u: int,
    card: PenaltyCard,
    e: CardExtents,
    team: JerseyColor,
    goalkeeper: bool,
) -> bool {
    let number = text::decimal(card.player_number as nat);
    let left = overlay::mm_ss_of(card.secs_remaining as nat);
    &&& slab(d, x, x + 8000 * u, y, 5400 * u, shade(5, 85))
    &&& slab(d, x, x + 8000 * u, y, 1800 * u, full(team))
    &&& in_card_row(d, x, y, u, e.number, 1600 * u, number, readable_on(team))
    &&& slab(d, x, x + 8000 * u, y + 1800 * u, 1800 * u, shade(85, 100))
    &&& in_card_row(d, x, y + 1800 * u, u, e.timer, 1600 * u, left, shade(5, 100))
    &&& in_card_row(
        d,
        x,
        y + 3600 * u,
        u,
        e.reason,
        1200 * u,
        card.penalty_reason@,
        shade(100, 100),
    )
    &&& goalkeeper ==> {
        &&& slab(
            d,
            x + 270 * u,
            x + 918 * u + e.badge.width,
            y + 270 * u,
            e.badge.height + 432 * u,
            shade(5, 85),
        )
        &&& written(
            d,
            x + 594 * u,
            y + 486 * u + e.badge.height,
            1020 * u,
            "GK"@,
            shade(100, 100),
        )
    }
}

/// A text in the middle of a third of a card, across and up and down.
pub open spec fn in_card_row(
    d: Seq<Mark>,
    x: int,
    row_y: int,
    u: int,
    e: Extent,
    size: int,
    text: Seq<char>,
    ink: Ink,
) -> bool {
    exists|tx: int, ty: int| #[trigger]
        written(d, tx, ty, size, text, ink) && 0 <= (2 * tx + e.width) - (2 * x + 8000 * u) <= 1
            && 0 <= (2 * ty - e.height) - (2 * row_y + 1800 * u) <= 1
}

proof fn lemma_column(
    x: int,
    frame_h: int,
    u: int,
    cards: Seq<PenaltyCard>,
    e: Seq<CardExtents>,
    team: JerseyColor,
    goalkeeper: u32,
    k: nat,
    i: int,
    m: Mark,
)
    requires
        0 <= i < k,
        vector_overlay::card_marks(
            x,
            vector_overlay::card_y(frame_h, u, cards.len() as int, i),
            u,
            cards[i],
            e[i],
            team,
            goalkeeper != 0 && cards[i].player_number == goalkeeper,
        ).contains(m),
    ensures
        vector_overlay::column_marks(x, frame_h, u, cards, e, team, goalkeeper, k).contains(m),
    decreases k,
{
    let before = vector_overlay::column_marks(
        x,
        frame_h,
        u,
        cards,
        e,
        team,
        goalkeeper,
        (k - 1) as nat,
    );
    let last = vector_overlay::card_marks(
        x,
        vector_overlay::card_y(frame_h, u, cards.len() as int, k - 1),
        u,
        cards[k - 1],
        e[k - 1],
        team,
        goalkeeper != 0 && cards[k - 1].player_number == goalkeeper,
    );
    if i < k - 1 {
        lemma_column(x, frame_h, u, cards, e, team, goalkeeper, (k - 1) as nat, i, m);
    }
    lemma_contains_sum(before, last, m);
}

proof fn lemma_card_row(
    d: Seq<Mark>,
    x: int,
    row_y: int,
    u: int,
    e: Extent,
    size: int,
    text: Seq<char>,
    ink: Ink,
)
    requires
        d.contains(vector_overlay::card_text(x, row_y, u, e, size, text, ink)),
    ensures
        in_card_row(d, x, row_y, u, e, size, text, ink),
{
    let tx = x + 4000 * u - e.width as int / 2;
    let ty = row_y + 1800 * u - (1800 * u - e.height) / 2;
    assert(written(d, tx, ty, size, text, ink));
}

/// What a card draws, as the whole drawing holds it.
proof fn lemma_card(
    d: Seq<Mark>,
    x: int,
    y: int,
    u: int,
    card: PenaltyCard,
    e: CardExtents,
    team: JerseyColor,
    goalkeeper: bool,
)
    requires
        forall|m: Mark|
            vector_overlay::card_marks(x, y, u, card, e, team, goalkeeper).contains(m)
                ==> #[trigger] d.contains(m),
    ensures
        card_drawn(d, x, y, u, card, e, team, goalkeeper),
{
    let s = vector_overlay::card_marks(x, y, u, card, e, team, goalkeeper);
    let n: int = if goalkeeper {
        5
    } else {
        3
    };
    let number = text::decimal(card.player_number as nat);
    let left = overlay::mm_ss_of(card.secs_remaining as nat);
    assert(vector_overlay::grey(5, 85) == shade(5, 85));
    assert(vector_overlay::grey(85, 100) == shade(85, 100));
    assert(vector_overlay::grey(5, 100) == shade(5, 100));
    assert(vector_overlay::grey(100, 100) == shade(100, 100));
    assert(vector_overlay::grey(0, 100) == shade(0, 100));
    assert(s.contains(s[0]) && s.contains(s[1]) && s.contains(s[2]));
    assert(s.contains(s[n]) && s.contains(s[n + 1]) && s.contains(s[n + 2]));
    assert(d.contains(s[0]) && d.contains(s[1]) && d.contains(s[2]));
    assert(d.contains(s[n]) && d.contains(s[n + 1]) && d.contains(s[n + 2]));
    lemma_slab(d, x, y, 8000 * u, 5400 * u, 300 * u, shade(5, 85));
    lemma_slab(d, x, y, 8000 * u, 1800 * u, 300 * u, full(team));
    lemma_card_row(d, x, y, u, e.number, 1600 * u, number, readable_on(team));
    lemma_slab(d, x, y + 1800 * u, 8000 * u, 1800 * u, 90 * u, shade(85, 100));
    lemma_card_row(d, x, y + 1800 * u, u, e.timer, 1600 * u, left, shade(5, 100));
    lemma_card_row(
        d,
        x,
        y + 3600 * u,
        u,
        e.reason,
        1200 * u,
        card.penalty_reason@,
        shade(100, 100),
    );
    if goalkeeper {
        assert(s.contains(s[3]) && s.contains(s[4]));
        assert(d.contains(s[3]) && d.contains(s[4]));
        lemma_slab(
            d,
            x + 270 * u,
            y + 270 * u,
            e.badge.width + 648 * u,
            e.badge.height + 432 * u,
            180 * u,
            shade(5, 85),
        );
        assert(x + 270 * u + (e.badge.width + 648 * u) == x + 918 * u + e.badge.width);
    }
}

/// The first team's penalised robots have their cards at the left edge, in that
/// team's colour, and the second team's at the right edge in its own. Card `i` of
/// `n` stands `n - i` cards above the bottom margin, with a gap between cards. The
/// card of the team's goalkeeper has the badge.
pub proof fn law_cards_at_their_edge(
    data: GameOverlayData,
    clock: Seq<char>,
    e: OverlayExtents,
    width: u32,
    height: u32,
    i: int,
)
    ensures
        ({
            let d = vector_overlay::overlay_marks(data, clock, e, width, height);
            let u = 2 * width as int;
            let bottom = 192_000 * height - 1000 * u;
            let (cards1, cards2) = (data.team1_penalties@, data.team2_penalties@);
            &&& 0 <= i < cards1.len() ==> card_drawn(
                d,
                1000 * u,
                bottom - 5800 * u * (cards1.len() - i) + 400 * u,
                u,
                cards1[i],
                e.cards1@[i],
                color1(data),
                data.team1_goalkeeper != 0 && cards1[i].player_number == data.team1_goalkeeper,
            )
            &&& 0 <= i < cards2.len() ==> card_drawn(
                d,
                87_000 * u,
                bottom - 5800 * u * (cards2.len() - i) + 400 * u,
                u,
                cards2[i],
                e.cards2@[i],
                color2(data),
                data.team2_goalkeeper != 0 && cards2[i].player_number == data.team2_goalkeeper,
            )
        }),
{
    let d = vector_overlay::overlay_marks(data, clock, e, width, height);
    let u = 2 * width as int;
    let frame_h = 192_000 * height as int;
    let (cards1, cards2) = (data.team1_penalties@, data.team2_penalties@);
    if 0 <= i < cards1.len() {
        let n = cards1.len() as int;
        let y = vector_overlay::card_y(frame_h, u, n, i);
        let gk = data.team1_goalkeeper != 0 && cards1[i].player_number == data.team1_goalkeeper;
        assert(n * (5800 * u) - i * (5800 * u) == 5800 * u * (n - i)) by (nonlinear_arith);
        let s = vector_overlay::card_marks(
            1000 * u,
            y,
            u,
            cards1[i],
            e.cards1@[i],
            color1(data),
            gk,
        );
        assert forall|m: Mark| s.contains(m) implies #[trigger] d.contains(m) by {
            lemma_column(
                1000 * u,
                frame_h,
                u,
                cards1,
                e.cards1@,
                color1(data),
                data.team1_goalkeeper,
                cards1.len(),
                i,
                m,
            );
            lemma_part(data, clock, e, width, height, 3, m);
        }
        lemma_card(d, 1000 * u, y, u, cards1[i], e.cards1@[i], color1(data), gk);
    }
    if 0 <= i < cards2.len() {
        let n = cards2.len() as int;
        let y = vector_overlay::card_y(frame_h, u, n, i);
        let x = 96_000 * u - 1000 * u - 8000 * u;
        let gk = data.team2_goalkeeper != 0 && cards2[i].player_number == data.team2_goalkeeper;
        assert(n * (5800 * u) - i * (5800 * u) == 5800 * u * (n - i)) by (nonlinear_arith);
        let s = vector_overlay::card_marks(x, y, u, cards2[i], e.cards2@[i], color2(data), gk);
        assert forall|m: Mark| s.contains(m) implies #[trigger] d.contains(m) by {
            lemma_column(
                x,
                frame_h,
                u,
                cards2,
                e.cards2@,
                color2(data),
                data.team2_goalkeeper,
                cards2.len(),
                i,
                m,
            );
            lemma_part(data, clock, e, width, height, 4, m);
        }
        lemma_card(d, x, y, u, cards2[i], e.cards2@[i], color2(data), gk);
    }
}

} // verus!
