//! What holds across functions, on concrete values.

use aicam::commands::{dispatch_commands, validate_commands, OverlayCommand};
use aicam::consumers::{
    build_frame_export_consumer_pipeline, build_recording_audio_consumer_pipeline,
    build_recording_video_consumer_pipeline, build_streaming_consumer_pipeline,
};
use aicam::glyphs::{FontId, FontStyle, GlyphCache};
use aicam::graph::{PipelinePlan, Setting};
use aicam::layout::scoreboard::{
    estimate_text_width, scoreboard_commands, truncate_for_display, LayoutParams, LayoutSizes,
    PenaltyTile, ScoreboardState,
};
use aicam::overlay::{
    apply_message, apply_overlay_update, format_state_line, parse_penalties, scoreboard_state_at,
    GameOverlayData, PenaltyCard,
};
use aicam::producer::{
    build_live_producer_pipeline, CameraBackend, Orientation, AUDIO_CHANNEL_RECORDING,
    AUDIO_CHANNEL_STREAMING, VIDEO_CHANNEL,
};
use aicam::renderer::color::{blend_u8, rgb_to_ycbcr_rec709_limited, Rgba};
use aicam::renderer::frame::Nv12FrameMut;
use aicam::teams::{parse_hex_color, to_rgba, JerseyColor, TeamsMap};

fn fill(x: i32, y: i32, width: i32, height: i32, color: Rgba) -> OverlayCommand {
    OverlayCommand::FillRect {
        x,
        y,
        width,
        height,
        color,
    }
}

fn text(size_px: u32, s: &str) -> OverlayCommand {
    OverlayCommand::DrawText {
        x: 2,
        y: 20,
        text: s.to_string(),
        font_id: FontId(7),
        size_px,
        style: FontStyle::Regular,
        color: Rgba::opaque(255, 255, 255),
    }
}

fn painted(lists: &[Vec<OverlayCommand>]) -> (Vec<u8>, Vec<u8>, [u32; 4]) {
    let mut y = vec![16u8; 64 * 32];
    let mut uv = vec![128u8; 64 * 16];
    let mut cache = GlyphCache::new().unwrap();
    let mut sum = [0u32; 4];
    for list in lists {
        let mut frame = Nv12FrameMut::new(&mut y, &mut uv, 64, 64, 64, 32).unwrap();
        let s = dispatch_commands(&mut frame, &mut cache, list);
        sum[0] += s.fill_rect_executed;
        sum[1] += s.draw_text_executed;
        sum[2] += s.skipped_invalid;
        sum[3] += s.skipped_no_op;
    }
    (y, uv, sum)
}

#[test]
fn lists_compose() {
    let a = vec![
        fill(-4, -4, 20, 20, Rgba::opaque(255, 0, 0)),
        fill(8, 8, 10, 10, Rgba::new(0, 255, 0, 100)),
    ];
    let b = vec![
        text(12, "hi"),
        fill(9, 3, 7, 21, Rgba::new(0, 0, 255, 200)),
        fill(0, 0, 5, 5, Rgba::new(1, 1, 1, 0)),
    ];
    let whole: Vec<OverlayCommand> = a.iter().chain(b.iter()).cloned().collect();
    assert_eq!(painted(&[a, b]), painted(&[whole]));
}

#[test]
fn every_command_is_counted_once() {
    let list = vec![
        fill(0, 0, 5, 5, Rgba::opaque(1, 2, 3)),
        fill(0, 0, 5, 5, Rgba::new(1, 2, 3, 0)),
        text(0, "x"),
        text(12, ""),
        text(12, "x"),
    ];
    let (_, _, counts) = painted(&[list.clone()]);
    assert_eq!(counts, [1, 0, 1, 3]);
    assert_eq!(counts.iter().sum::<u32>() as usize, list.len());
}

#[test]
fn pixels_outside_a_fill_are_kept() {
    let (y, _, _) = painted(&[vec![fill(10, 6, 4, 3, Rgba::opaque(255, 255, 255))]]);
    for row in 0..32 {
        for col in 0..64 {
            let inside = (10..14).contains(&col) && (6..9).contains(&row);
            assert_eq!(y[row * 64 + col], if inside { 235 } else { 16 });
        }
    }
}

#[test]
fn colours_stay_in_the_limited_range() {
    for r in (0..=255u16).step_by(15) {
        for g in (0..=255u16).step_by(15) {
            for b in (0..=255u16).step_by(15) {
                let c = rgb_to_ycbcr_rec709_limited(r as u8, g as u8, b as u8);
                assert!((16..=235).contains(&c.y));
                assert!((16..=240).contains(&c.cb) && (16..=240).contains(&c.cr));
            }
        }
    }
    for v in 0..=255u8 {
        let c = rgb_to_ycbcr_rec709_limited(v, v, v);
        assert_eq!((c.cb, c.cr), (128, 128));
    }
}

#[test]
fn blends_lie_between() {
    for (dst, src) in [(0u8, 255u8), (200, 30), (77, 78)] {
        assert_eq!(blend_u8(dst, src, 0), dst);
        assert_eq!(blend_u8(dst, src, 255), src);
        for alpha in 0..=255u8 {
            let out = blend_u8(dst, src, alpha);
            assert!(out >= dst.min(src) && out <= dst.max(src));
        }
    }
}

#[test]
fn jersey_bytes_come_back() {
    for v in 0..=255u8 {
        let c = JerseyColor::from_bytes(v, 255 - v, v / 2);
        assert_eq!(to_rgba(Some(c)), Some(Rgba::opaque(v, 255 - v, v / 2)));
    }
    assert_eq!(
        to_rgba(parse_hex_color("#12aBfe")),
        Some(Rgba::opaque(0x12, 0xab, 0xfe))
    );
}

#[test]
fn truncated_texts_fit() {
    let long = "A very long team name that cannot fit";
    for width in [0, 30, 60, 120, 400, 4000] {
        let cut = truncate_for_display(long, width, 24);
        assert!(cut == long || estimate_text_width(&cut, 24) <= width || cut.chars().count() <= 1);
    }
    assert_eq!(truncate_for_display(long, 4000, 24), long);
}

fn params(width: u32, height: u32) -> LayoutParams {
    LayoutParams {
        frame_width: width,
        frame_height: height,
        regular_font: FontId(0),
        bold_font: FontId(1),
        sizes: LayoutSizes::default(),
    }
}

#[test]
fn penalty_columns_are_capped() {
    let tile = |n: u32| PenaltyTile {
        player_number: n,
        secs_remaining: 30,
        penalty_reason: String::new(),
        is_goalkeeper: false,
    };
    let count = |n: u32| {
        let state = ScoreboardState {
            home_penalty_timers: (0..n).map(tile).collect(),
            ..ScoreboardState::default()
        };
        scoreboard_commands(&state, &params(1920, 1080)).len()
    };
    assert!(count(1) > count(0));
    assert_eq!(count(50), count(1000));
}

#[test]
fn scoreboards_have_no_malformed_command() {
    let cache = GlyphCache::new().unwrap();
    for (w, h) in [(1920, 1080), (1280, 720), (64, 64), (0, 0)] {
        let cmds = scoreboard_commands(&ScoreboardState::default(), &params(w, h));
        for c in &cmds {
            if let OverlayCommand::FillRect { width, height, .. } = c {
                assert!(*width >= 0 && *height >= 0);
            }
        }
        let only_fills: Vec<OverlayCommand> = cmds
            .into_iter()
            .filter(|c| matches!(c, OverlayCommand::FillRect { .. }))
            .collect();
        assert!(validate_commands(&cache, &only_fills).is_empty());
    }
}

#[test]
fn packets_keep_what_they_lack() {
    let teams = TeamsMap::new();
    let mut d = GameOverlayData {
        field_name: "FIELD C".to_string(),
        ..GameOverlayData::default()
    };
    apply_message(
        &mut d,
        "telemetry.penalties",
        r#"{"team1_penalties":[{"player_number":3,"penalty_code":7,"penalty_reason":"Pushing","secs_remaining":30}]}"#,
        &teams,
    );
    assert_eq!(d.team1_penalties.len(), 1);
    assert_eq!(d.team1_score, 0);
    apply_message(
        &mut d,
        "telemetry.game_state",
        r#"{"team1_number":5,"team1_score":2,"state":"PLAYING"}"#,
        &teams,
    );
    assert_eq!(d.team1_score, 2);
    assert_eq!(d.field_name, "FIELD C");
    assert_eq!(d.team1_penalties.len(), 1);
    let before = format!("{d:?}");
    apply_message(&mut d, "telemetry.other", r#"{"team1_score":9}"#, &teams);
    apply_message(&mut d, "telemetry.game_state", "{", &teams);
    assert_eq!(format!("{d:?}"), before);
}

#[test]
fn field_names_are_updated() {
    let mut d = GameOverlayData::default();
    let update: serde_json::Value = serde_json::from_str(r#"{"field_name":"FIELD D"}"#).unwrap();
    apply_overlay_update(&mut d, &update);
    assert_eq!(d.field_name, "FIELD D");
    let update: serde_json::Value = serde_json::from_str(r#"{"field_name":5}"#).unwrap();
    apply_overlay_update(&mut d, &update);
    assert_eq!(d.field_name, "FIELD D");
}

#[test]
fn cards_come_in_display_order() {
    let p: serde_json::Value = serde_json::from_str(
        r#"{"team2_penalties":[
            {"player_number":9,"penalty_code":1,"secs_remaining":5},
            {"player_number":4,"penalty_code":1,"secs_remaining":50},
            {"player_number":2,"penalty_code":1,"secs_remaining":5},
            {"player_number":7,"penalty_code":0,"secs_remaining":99}
        ]}"#,
    )
    .unwrap();
    let (_, cards) = parse_penalties(&p);
    let order: Vec<(u32, u32)> = cards
        .iter()
        .map(|c: &PenaltyCard| (c.secs_remaining, c.player_number))
        .collect();
    assert_eq!(order, vec![(50, 4), (5, 2), (5, 9)]);
}

#[test]
fn states_are_shown_in_lower_case() {
    let d = GameOverlayData {
        state: "ST\u{c4}NDBY".to_string(),
        ..GameOverlayData::default()
    };
    assert_eq!(format_state_line(&d), "st\u{e4}ndby");
    let s = scoreboard_state_at(&d, "11:22:33".to_string());
    assert_eq!(s.clock_text, "11:22:33");
    assert_eq!(s.state_text, "st\u{e4}ndby");
}

fn channels(plan: &PipelinePlan, factory: &str) -> Vec<String> {
    plan.elements
        .iter()
        .flat_map(|e| e.candidates.iter())
        .filter(|c| c.factory == factory)
        .flat_map(|c| c.properties.iter())
        .filter(|p| p.name == "channel")
        .filter_map(|p| match &p.value {
            Setting::Text(t) => Some(t.clone()),
            _ => None,
        })
        .collect()
}

#[test]
fn consumers_read_what_producers_publish() {
    let live = build_live_producer_pipeline(
        1920,
        1080,
        30,
        true,
        None,
        CameraBackend::Libcamera,
        Orientation::Identity,
        false,
    );
    assert_eq!(channels(&live, "intervideosink"), vec![VIDEO_CHANNEL]);
    assert_eq!(
        channels(&live, "interaudiosink"),
        vec![AUDIO_CHANNEL_RECORDING, AUDIO_CHANNEL_STREAMING]
    );
    for plan in [
        build_frame_export_consumer_pipeline(),
        build_streaming_consumer_pipeline("rtmp://h/a", 500, 30, true, false),
        build_recording_video_consumer_pipeline(30, 8192),
    ] {
        assert_eq!(channels(&plan, "intervideosrc"), vec![VIDEO_CHANNEL]);
    }
    assert_eq!(
        channels(&build_recording_audio_consumer_pipeline(), "interaudiosrc"),
        vec![AUDIO_CHANNEL_RECORDING]
    );
}

#[test]
fn an_empty_list_leaves_the_frame() {
    assert_eq!(
        painted(&[vec![]]),
        (vec![16u8; 64 * 32], vec![128u8; 64 * 16], [0, 0, 0, 0])
    );
}
