//! The overlay as strokes.

use aicam::overlay::{GameOverlayData, PenaltyCard};
use aicam::teams::JerseyColor;
use aicam::vector_overlay::{
    card_timer, draw_overlay, CardExtents, Extent, OverlayExtents, Stroke, UNITS_PER_PIXEL,
};

const PX: i128 = UNITS_PER_PIXEL as i128;

fn extent(width: i64, height: i64) -> Extent {
    Extent {
        width: width * UNITS_PER_PIXEL as i64,
        height: height * UNITS_PER_PIXEL as i64,
    }
}

fn extents(cards1: usize, cards2: usize) -> OverlayExtents {
    let e = extent(40, 10);
    let card = CardExtents {
        number: e,
        badge: e,
        timer: e,
        reason: e,
    };
    OverlayExtents {
        field_name: e,
        wall_clock: e,
        name1: e,
        name2: e,
        budget1: e,
        budget2: e,
        phase: e,
        score1: e,
        score2: e,
        game_clock: e,
        state_line: e,
        cards1: vec![card; cards1],
        cards2: vec![card; cards2],
    }
}

fn labels(strokes: &[Stroke]) -> Vec<&str> {
    strokes
        .iter()
        .filter_map(|s| match s {
            Stroke::Label { text, .. } => Some(text.as_str()),
            _ => None,
        })
        .collect()
}

#[test]
fn every_text_is_drawn() {
    let data = GameOverlayData {
        team1_message_budget: 7,
        team2_message_budget: 8,
        team1_score: 3,
        team2_score: 2,
        ..GameOverlayData::default()
    };
    let strokes = draw_overlay(&data, "12:34:56", &extents(0, 0), 960, 540);
    let texts = labels(&strokes);
    for wanted in [
        "FIELD A", "12:34:56", "Home", "Away", "msg 7", "msg 8", "1st", "3", "2", "10:00",
        "initial",
    ] {
        assert!(texts.contains(&wanted), "{wanted} in {texts:?}");
    }
}

#[test]
fn the_field_name_stands_in_the_corner() {
    let strokes = draw_overlay(
        &GameOverlayData::default(),
        "12:34:56",
        &extents(0, 0),
        960,
        540,
    );
    let Stroke::Panel {
        x,
        y,
        width,
        height,
        radius,
        ink,
    } = &strokes[0]
    else {
        panic!("a panel comes first");
    };
    assert_eq!((*x, *y), (10 * PX, 10 * PX));
    assert_eq!((*width, *height), (56 * PX, 18 * PX));
    assert_eq!(*radius, 4 * PX);
    assert_eq!(ink.percent, 70);
    let Stroke::Label { x, y, size, .. } = &strokes[1] else {
        panic!("its text follows");
    };
    assert_eq!((*x, *y, *size), (18 * PX, 24 * PX, 16 * PX));
}

#[test]
fn shoot_outs_show_dots() {
    let mut data = GameOverlayData {
        game_phase: 1,
        team1_penalty_shot: 3,
        team1_single_shots: 5,
        team2_penalty_shot: 2,
        ..GameOverlayData::default()
    };
    let dots = |d: &GameOverlayData| {
        draw_overlay(d, "", &extents(0, 0), 960, 540)
            .iter()
            .filter(|s| matches!(s, Stroke::Dot { .. }))
            .count()
    };
    assert_eq!(dots(&data), 6);
    data.game_phase = 0;
    assert_eq!(dots(&data), 0);
}

#[test]
fn cards_stack_from_the_bottom() {
    let card = |n: u32| PenaltyCard {
        player_number: n,
        penalty_reason: "Pushing".to_string(),
        secs_remaining: 65,
    };
    let data = GameOverlayData {
        team1_penalties: vec![card(4), card(9)],
        team1_goalkeeper: 4,
        team1_color: Some(JerseyColor::from_hundredths(100, 0, 0)),
        ..GameOverlayData::default()
    };
    let strokes = draw_overlay(&data, "", &extents(2, 0), 960, 540);
    let tall: Vec<(i128, i128)> = strokes
        .iter()
        .filter_map(|s| match s {
            Stroke::Panel {
                x,
                y,
                width,
                height,
                ..
            } if *width == 80 * PX && *height == 54 * PX => Some((*x, *y)),
            _ => None,
        })
        .collect();
    assert_eq!(
        tall,
        vec![
            (10 * PX, (540 - 10 - 54 - 58) * PX),
            (10 * PX, (540 - 10 - 54) * PX)
        ]
    );
    let texts = labels(&strokes);
    assert_eq!(texts.iter().filter(|t| **t == "GK").count(), 1);
    assert_eq!(texts.iter().filter(|t| **t == "01:05").count(), 2);
    assert!(texts.contains(&"4") && texts.contains(&"9"));
}

#[test]
fn timers_show_minutes_and_seconds() {
    assert_eq!(card_timer(0), "00:00");
    assert_eq!(card_timer(65), "01:05");
    assert_eq!(card_timer(6000), "100:00");
}

#[test]
fn the_scoreboard_is_centred() {
    let strokes = draw_overlay(
        &GameOverlayData::default(),
        "",
        &extents(0, 0),
        1920,
        1080,
    );
    let (mut left, mut right) = (i128::MAX, i128::MIN);
    for s in &strokes {
        if let Stroke::Panel { x, y, width, .. } = s {
            if *y > 540 * PX {
                left = left.min(*x);
                right = right.max(*x + *width);
            }
        }
    }
    assert!((left - (1920 * PX - right)).abs() <= 1);
}

#[test]
fn the_time_of_day_is_drawn() {
    let now: Vec<char> = aicam::vector_overlay::clock_text().chars().collect();
    assert_eq!(now.len(), 8);
    for (i, c) in now.iter().enumerate() {
        assert!(if i == 2 || i == 5 { *c == ':' } else { c.is_ascii_digit() });
    }
}
