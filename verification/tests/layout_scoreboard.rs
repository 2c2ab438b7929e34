use aicam::commands::{validate_commands, CommandError, OverlayCommand};
use aicam::glyphs::{FontId, FontStyle, GlyphCache};
use aicam::layout::scoreboard::{
    estimate_text_width, estimate_text_width_bold, estimate_text_width_digits,
    scoreboard_commands, truncate_for_display, LayoutParams, LayoutSizes, PenaltyTile,
    ScoreboardState,
};
use aicam::renderer::color::Rgba;

const REGULAR: FontId = FontId(0);
const BOLD: FontId = FontId(1);
const PILL_BG: Rgba = Rgba {
    r: 217,
    g: 217,
    b: 217,
    a: 128,
};

fn params_1080() -> LayoutParams {
    LayoutParams {
        frame_width: 1920,
        frame_height: 1080,
        regular_font: REGULAR,
        bold_font: BOLD,
        sizes: LayoutSizes::default(),
    }
}

fn params_720() -> LayoutParams {
    LayoutParams {
        frame_width: 1280,
        frame_height: 720,
        regular_font: REGULAR,
        bold_font: BOLD,
        sizes: LayoutSizes::default(),
    }
}

fn realistic_state() -> ScoreboardState {
    ScoreboardState {
        field_name: "FIELD E".into(),
        clock_text: "10:49:05".into(),
        home_team_name: "B-Human".into(),
        away_team_name: "Côme & Mars".into(),
        home_team_color: Some(Rgba::opaque(217, 25, 25)),
        away_team_color: Some(Rgba::opaque(25, 50, 217)),
        home_score: 3,
        away_score: 1,
        game_clock_text: "07:42".into(),
        phase_text: "FIRST HALF".into(),
        state_text: "PLAYING".into(),
        home_penalty_timers: vec![PenaltyTile {
            player_number: 4,
            secs_remaining: 27,
            penalty_reason: "PUSHING".into(),
            is_goalkeeper: false,
        }],
        away_penalty_timers: vec![
            PenaltyTile {
                player_number: 2,
                secs_remaining: 12,
                penalty_reason: "BALL HOLDING".into(),
                is_goalkeeper: true,
            },
            PenaltyTile {
                player_number: 6,
                secs_remaining: 43,
                penalty_reason: "FOUL".into(),
                is_goalkeeper: false,
            },
        ],
        ..Default::default()
    }
}

#[test]
fn layout_produces_commands_for_realistic_state() {
    let cmds = scoreboard_commands(&realistic_state(), &params_1080());
    assert!(cmds.len() > 14, "got {} commands", cmds.len());
}

#[test]
fn layout_default_state_does_not_panic() {
    let cmds = scoreboard_commands(&ScoreboardState::default(), &params_1080());
    assert!(!cmds.is_empty());
}

#[test]
fn layout_validates_clean_against_a_two_font_cache() {
    let cache = {
        let mut c = GlyphCache::new().unwrap();
        let candidates = [
            "/usr/share/fonts/truetype/dejavu/DejaVuSans.ttf",
            "/usr/share/fonts/truetype/liberation/LiberationSans-Regular.ttf",
        ];
        let mut path = None;
        for p in candidates {
            if std::path::Path::new(p).exists() {
                path = Some(p);
                break;
            }
        }
        let Some(path) = path else {
            println!("[skip] no system font");
            return;
        };
        c.register_font(REGULAR, FontStyle::Regular, path)
            .unwrap();
        c.register_font(BOLD, FontStyle::Bold, path)
            .unwrap();
        c
    };
    let cmds = scoreboard_commands(&realistic_state(), &params_1080());
    let failures = validate_commands(&cache, &cmds);
    assert!(failures.is_empty(), "{failures:?}");
}

fn assert_commands_mostly_in_frame(cmds: &[OverlayCommand], params: &LayoutParams) {
    let fw = params.frame_width as i32;
    let fh = params.frame_height as i32;
    for (i, cmd) in cmds.iter().enumerate() {
        match cmd {
            OverlayCommand::FillRect {
                x,
                y,
                width,
                height,
                ..
            } => {
                assert!(
                    *x >= 0 && *y >= 0,
                    "cmd #{i}: FillRect anchored off-screen at ({x},{y})"
                );
                assert!(
                    *x < fw && *y < fh,
                    "cmd #{i}: FillRect origin past frame far edge"
                );
                assert!(*x + *width <= fw + fw / 20);
                assert!(*y + *height <= fh + fh / 20);
            }
            OverlayCommand::DrawText { x, y, .. } => {
                assert!(
                    *y >= 0 && *y < fh,
                    "cmd #{i}: text baseline @ y={y} out of frame"
                );
                assert!(
                    *x >= 0 && *x < fw,
                    "cmd #{i}: text origin @ x={x} out of frame"
                );
            }
        }
    }
}

#[test]
fn realistic_state_stays_in_frame_at_1080p() {
    let cmds = scoreboard_commands(&realistic_state(), &params_1080());
    assert_commands_mostly_in_frame(&cmds, &params_1080());
}

#[test]
fn realistic_state_stays_in_frame_at_720p() {
    let cmds = scoreboard_commands(&realistic_state(), &params_720());
    assert_commands_mostly_in_frame(&cmds, &params_720());
}

#[test]
fn long_team_names_get_truncated_to_fit() {
    let mut state = realistic_state();
    state.home_team_name = "AldebaranSuperLongTeamName".repeat(3);
    state.away_team_name = "AnotherSuperLongTeamName".repeat(3);
    let cmds = scoreboard_commands(&state, &params_1080());
    assert_commands_mostly_in_frame(&cmds, &params_1080());

    let mut truncated_seen = false;
    for cmd in &cmds {
        if let OverlayCommand::DrawText { text, .. } = cmd {
            if text.ends_with('…') {
                truncated_seen = true;
            }
        }
    }
    assert!(
        truncated_seen,
        "expected at least one DrawText command to be truncated to '…'"
    );
}

#[test]
fn truncate_for_display_uses_ellipsis_and_fits() {
    let t = truncate_for_display("Aldebaran NAO Devils", 80, 22);
    assert!(
        t.ends_with('…'),
        "expected truncation to add ellipsis, got {t:?}"
    );
    assert!(estimate_text_width(&t, 22) <= 80);
}

#[test]
fn truncate_for_display_passes_through_short_text() {
    let t = truncate_for_display("OK", 200, 22);
    assert_eq!(t, "OK");
}

#[test]
fn penalty_column_caps_at_frame_top() {
    let mut state = ScoreboardState {
        field_name: "F".into(),
        home_team_name: "H".into(),
        away_team_name: "A".into(),
        ..Default::default()
    };
    state.home_penalty_timers = (0..50)
        .map(|i| PenaltyTile {
            player_number: i,
            secs_remaining: 30,
            ..Default::default()
        })
        .collect();
    let cmds = scoreboard_commands(&state, &params_1080());
    assert_commands_mostly_in_frame(&cmds, &params_1080());
}

#[test]
fn paint_order_puts_backings_before_their_text() {
    let state = realistic_state();
    let cmds = scoreboard_commands(&state, &params_1080());
    let field_text_idx = cmds
        .iter()
        .position(|c| matches!(c, OverlayCommand::DrawText { text, .. } if text == "FIELD E"));
    let mut field_rect_idx = None;
    for (i, c) in cmds.iter().enumerate() {
        if let OverlayCommand::FillRect { color, .. } = c {
            if *color == PILL_BG {
                field_rect_idx = Some(i);
                break;
            }
        }
    }
    let Some(text_idx) = field_text_idx else {
        panic!("field-name DrawText not emitted");
    };
    let Some(rect_idx) = field_rect_idx else {
        panic!("field-name pill FillRect not emitted");
    };
    assert!(
        rect_idx < text_idx,
        "field pill background (#{rect_idx}) must precede text (#{text_idx})"
    );
}

#[test]
fn widths_are_those_of_single_precision() {
    for text in ["", "a", "ab", "07:42", "Aldebaran NAO Devils"] {
        let n = text.chars().count() as f32;
        for size in [0u32, 1, 10, 22, 37, 44, 50, 300, 40_330, 845_671, u32::MAX] {
            let s = size as f32;
            assert_eq!(estimate_text_width(text, size), (n * s * 0.62).ceil() as u32);
            assert_eq!(estimate_text_width_bold(text, size), (n * s * 0.7).ceil() as u32);
            assert_eq!(estimate_text_width_digits(text, size), (n * s * 0.65).ceil() as u32);
        }
    }
    // The exact product is 524316.02.
    assert_eq!(estimate_text_width("a", 845_671), 524_316);
    // Beyond any frame, three may be estimated wider than two and one.
    assert_eq!(estimate_text_width("aa", 845_671), 1_048_632);
    assert_eq!(estimate_text_width("aaa", 845_671), 1_572_949);
    assert_eq!(truncate_for_display("aaaa", 1_572_948, 845_671), "aa\u{2026}");
    assert_eq!(truncate_for_display("aaaa", 1_572_947, 845_671), "a\u{2026}");
}

#[test]
fn longer_texts_are_no_narrower() {
    for size in [1u32, 22, 333, 16_777_217] {
        let mut text = String::new();
        let mut width = 0;
        for _ in 0..200 {
            assert!(estimate_text_width(&text, size) >= width);
            width = estimate_text_width(&text, size);
            text.push('x');
        }
    }
}

#[test]
fn scoreboards_of_any_width_validate() {
    let cache = GlyphCache::new().unwrap();
    for width in [44u32, 45, 66, 100, 320, 1920, 7680, 2_000_000_000] {
        let params = LayoutParams {
            frame_width: width,
            frame_height: 720,
            ..params_1080()
        };
        for state in [realistic_state(), ScoreboardState::default()] {
            let cmds = scoreboard_commands(&state, &params);
            assert!(!cmds.is_empty());
            for failure in validate_commands(&cache, &cmds) {
                assert!(matches!(failure.error, CommandError::UnknownFont { .. }));
            }
            for cmd in &cmds {
                match cmd {
                    OverlayCommand::FillRect { width, height, .. } => {
                        assert!(*width >= 0 && *height >= 0);
                    }
                    OverlayCommand::DrawText { font_id, style, size_px, .. } => {
                        assert!(*size_px > 0);
                        assert_eq!(*font_id == BOLD, *style == FontStyle::Bold);
                    }
                }
            }
        }
    }
}

#[test]
fn pills_stand_exactly_where_there_is_text() {
    for field in ["", "FIELD E"] {
        for clock in ["", "10:49:05"] {
            let state = ScoreboardState {
                field_name: field.into(),
                clock_text: clock.into(),
                ..realistic_state()
            };
            let cmds = scoreboard_commands(&state, &params_1080());
            let mut at = 0;
            for text in [field, clock] {
                let pill = matches!(
                    &cmds[at],
                    OverlayCommand::FillRect { color, .. } if *color == PILL_BG
                );
                let label = matches!(
                    &cmds[at + 1],
                    OverlayCommand::DrawText { text: t, .. } if t == text
                );
                assert_eq!(pill && label, !text.is_empty());
                if !text.is_empty() {
                    at += 2;
                }
            }
            assert!(cmds.len() > at);
        }
    }
}
