//! The overlay element.

use aicam::glyphs::{GlyphCache, GlyphError};
use aicam::layout::scoreboard::{LayoutSizes, ScoreboardState};
use aicam::plugin::{
    choose_font, paint_buffer, preload_sizes, probe_path, test_pattern_at, test_pattern_state,
    FontsLoaded, FrameOutcome, Nv12Overlay, PlaneLayout, RenderStats, SizesInput, StateInput,
    FONT_CANDIDATES,
};

const SMALL: PlaneLayout = PlaneLayout {
    y_offset: 0,
    uv_offset: 320 * 240,
    y_stride: 320,
    uv_stride: 320,
    width: 320,
    height: 240,
};

fn grey_buffer() -> Vec<u8> {
    let mut data = vec![16u8; 320 * 240];
    data.resize(320 * 240 * 3 / 2, 128);
    data
}

fn started() -> Nv12Overlay {
    let mut e = Nv12Overlay::new();
    assert!(e.start(None, None).is_ok());
    assert!(e.set_caps(SMALL));
    e
}

#[test]
fn pass_through_pipeline_runs_with_show_test_overlay() {
    let mut e = started();
    e.settings.show_test_overlay = true;
    for _ in 0..30 {
        let mut data = grey_buffer();
        let FrameOutcome::Painted(stats) = e.transform_ip(&mut data) else {
            panic!("the frame must be painted");
        };
        assert!(stats.fill_rect_executed > 0);
        assert_eq!(stats.draw_text_executed, 0);
        assert_ne!(data, grey_buffer());
    }
}

#[test]
fn disabled_element_passes_frames_through_unchanged() {
    let mut e = started();
    e.settings.enabled = false;
    e.settings.show_test_overlay = true;
    for _ in 0..10 {
        let mut data = grey_buffer();
        assert_eq!(e.transform_ip(&mut data), FrameOutcome::PassedThrough);
        assert_eq!(data, grey_buffer());
    }
}

#[test]
fn scoreboard_state_json_property_round_trips() {
    let mut e = Nv12Overlay::new();
    let state = ScoreboardState {
        field_name: "test field".into(),
        home_team_name: "HOME".into(),
        away_team_name: "AWAY".into(),
        home_score: 3,
        away_score: 2,
        game_clock_text: "07:42".into(),
        phase_text: "FIRST HALF".into(),
        state_text: "PLAYING".into(),
        ..Default::default()
    };
    assert!(!e.external.accept(StateInput::Parsed(state)));
    assert_eq!(e.external.parse_count, 1);
    assert_eq!(e.external.parse_err_count, 0);
    let cached = e.external.cached.as_ref().expect("cached state present");
    assert_eq!(cached.home_score, 3);
    assert_eq!(cached.away_score, 2);
    assert_eq!(cached.game_clock_text, "07:42");

    assert!(!e.external.accept(StateInput::Clear));
    assert!(e.external.cached.is_none());
    assert!(e.external.accept(StateInput::Malformed));
    assert!(e.external.cached.is_none());
    assert_eq!(e.external.parse_err_count, 1);
}

#[test]
fn malformed_states_are_reported_now_and_then() {
    let mut e = Nv12Overlay::new();
    let reported: Vec<u64> = (1..=250u64)
        .filter(|_| e.external.accept(StateInput::Malformed))
        .collect();
    assert_eq!(reported, vec![1, 100, 200]);
}

#[test]
fn elements_begin_enabled() {
    let e = Nv12Overlay::new();
    assert!(e.settings.enabled);
    assert!(!e.settings.show_test_overlay);
    assert!(e.runtime.is_none());
}

#[test]
fn frames_pass_until_the_element_is_ready() {
    let mut e = Nv12Overlay::new();
    let mut data = grey_buffer();
    assert_eq!(e.transform_ip(&mut data), FrameOutcome::PassedThrough);
    assert!(!e.set_caps(SMALL));
    assert!(e.start(None, None).is_ok());
    assert_eq!(e.transform_ip(&mut data), FrameOutcome::PassedThrough);
    assert!(e.set_caps(SMALL));
    assert!(matches!(
        e.transform_ip(&mut data),
        FrameOutcome::Painted(_)
    ));
    assert_eq!(
        e.stop(),
        Some(RenderStats {
            frame_count: 0,
            total_ns: 0,
            max_ns: 0
        })
    );
    assert_eq!(e.stop(), None);
}

#[test]
fn short_buffers_are_skipped() {
    let mut e = started();
    let mut data = vec![7u8; 320 * 240];
    assert_eq!(e.transform_ip(&mut data), FrameOutcome::Skipped);
    assert!(data.iter().all(|b| *b == 7));
}

#[test]
fn what_lies_between_the_rows_is_kept() {
    let padded = PlaneLayout {
        y_offset: 64,
        uv_offset: 64 + 400 * 240,
        y_stride: 400,
        uv_stride: 400,
        width: 320,
        height: 240,
    };
    let mut data = vec![99u8; 64 + 400 * 240 + 400 * 120 + 10];
    let mut cache = GlyphCache::new().unwrap();
    let state = test_pattern_at(0, "12:00:00".to_string());
    let stats = paint_buffer(&mut data, padded, &mut cache, &state, LayoutSizes::default());
    assert!(stats.unwrap().fill_rect_executed > 0);
    assert!(data[..64].iter().all(|b| *b == 99));
    assert!(data[64 + 400 * 360..].iter().all(|b| *b == 99));
    for row in 0..240 {
        let from = 64 + 400 * row;
        assert!(data[from + 320..from + 400].iter().all(|b| *b == 99));
    }
    assert!(data.iter().any(|b| *b != 99));
}

#[test]
fn configured_fonts_come_first() {
    assert_eq!(
        choose_font(&Some("/x.ttf".to_string()), true, &vec![true; FONT_CANDIDATES]),
        Some("/x.ttf".to_string())
    );
    assert_eq!(
        choose_font(&None, false, &vec![false, false, true, true]),
        Some("/usr/share/fonts/dejavu/DejaVuSans.ttf".to_string())
    );
    assert_eq!(choose_font(&None, true, &vec![false; FONT_CANDIDATES]), None);
    assert_eq!(
        probe_path(true, 3),
        "/usr/share/fonts/truetype/liberation/LiberationSans-Bold.ttf"
    );
}

#[test]
fn sizes_are_rendered_ahead_for_the_frame() {
    assert_eq!(preload_sizes(1920), vec![18, 22, 32]);
    assert_eq!(preload_sizes(1280), vec![12, 15, 21]);
    assert_eq!(preload_sizes(0), vec![1]);
}

#[test]
fn costs_are_averaged() {
    let mut s = RenderStats {
        frame_count: 0,
        total_ns: 0,
        max_ns: 0,
    };
    assert_eq!(s.average(), 0);
    for i in 1..=600u128 {
        assert_eq!(s.note(i * 1000), i % 300 == 0);
    }
    assert_eq!(s.max_ns, 600_000);
    assert_eq!(s.average(), 300);
}

#[test]
fn the_built_in_scoreboard_moves() {
    let a = test_pattern_at(0, "12:00:00".to_string());
    assert_eq!(a.game_clock_text, "00:00");
    assert!(a.clock_stopped);
    assert_eq!(a.home_penalty_timers[0].secs_remaining, 60);
    let b = test_pattern_at(30 * 61, "12:01:01".to_string());
    assert_eq!(b.game_clock_text, "01:01");
    assert_eq!(b.home_score, 4);
    assert_eq!(b.away_score, 5);
    assert_eq!(b.clock_text, "12:01:01");
    let now = test_pattern_state(0).clock_text;
    assert_eq!(now.len(), 8);
    assert_eq!(&now[2..3], ":");
}

#[test]
fn sizes_are_taken_up_or_cleared() {
    let mut e = Nv12Overlay::new();
    e.accept_sizes(SizesInput::Malformed);
    assert!(e.sizes.is_none());
    e.accept_sizes(SizesInput::Parsed(LayoutSizes::default()));
    assert!(e.sizes.is_some());
    e.accept_sizes(SizesInput::Malformed);
    assert!(e.sizes.is_some());
    e.accept_sizes(SizesInput::Clear);
    assert!(e.sizes.is_none());
}

#[test]
fn faces_that_do_not_load_are_done_without() {
    let mut e = Nv12Overlay::new();
    let none = FontsLoaded {
        regular: false,
        bold: false,
    };
    assert_eq!(e.start(None, None), Ok(none));
    assert_eq!(e.start(Some("/nonexistent/a.ttf"), Some("/nonexistent/b.ttf")), Ok(none));
    for bold in [false, true] {
        for i in 0..FONT_CANDIDATES {
            let path = probe_path(bold, i);
            if std::path::Path::new(&path).exists() {
                let loaded = e.start(Some(&path), None).unwrap();
                assert!(loaded.regular && !loaded.bold);
                assert!(e.set_caps(SMALL));
                let cache = &e.runtime.as_ref().unwrap().cache;
                assert_eq!(cache.len(), 95 * preload_sizes(SMALL.width).len());
            }
        }
    }
}

#[test]
fn elements_start_with_the_cache_that_was_made() {
    let mut e = Nv12Overlay::new();
    assert_eq!(
        e.start_with(Err(GlyphError::LibraryInit), None, None),
        Err(GlyphError::LibraryInit)
    );
    assert!(e.runtime.is_none());
    let library = freetype::Library::init().unwrap();
    let mut cache = GlyphCache::with_library(library);
    assert!(cache.is_empty() && cache.take_missing().is_empty());
    let none = FontsLoaded {
        regular: false,
        bold: false,
    };
    assert_eq!(e.start_with(Ok(cache), Some("/nonexistent/a.ttf"), None), Ok(none));
    assert!(e.runtime.is_some());
}
