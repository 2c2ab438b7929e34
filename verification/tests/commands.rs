use aicam::commands::{dispatch_commands, validate_commands, CommandError, DispatchStats, OverlayCommand};
use aicam::glyphs::{FontId, FontStyle, GlyphCache};
use aicam::renderer::color::Rgba;
use aicam::renderer::frame::Nv12FrameMut;

const F: FontId = FontId(0);

fn probe_font() -> Option<String> {
    let candidates = [
        "/usr/share/fonts/truetype/dejavu/DejaVuSans.ttf",
        "/usr/share/fonts/TTF/DejaVuSans.ttf",
        "/usr/share/fonts/dejavu/DejaVuSans.ttf",
        "/usr/share/fonts/truetype/liberation/LiberationSans-Regular.ttf",
    ];
    for c in candidates {
        if std::path::Path::new(c).exists() {
            return Some(c.to_string());
        }
    }
    None
}

fn black_frame_64x32(y: &mut Vec<u8>, uv: &mut Vec<u8>) {
    y.clear();
    y.resize(64 * 32, 16);
    uv.clear();
    uv.resize(64 * 16, 128);
}

fn view<'a>(y: &'a mut [u8], uv: &'a mut [u8]) -> Nv12FrameMut<'a> {
    Nv12FrameMut::new(y, uv, 64, 64, 64, 32).unwrap()
}

#[test]
fn validate_empty_list_is_clean() {
    let cache = GlyphCache::new().unwrap();
    let failures = validate_commands(&cache, &[]);
    assert!(failures.is_empty());
}

#[test]
fn validate_fillrect_negative_dim_flagged() {
    let cache = GlyphCache::new().unwrap();
    let cmds = vec![
        OverlayCommand::FillRect {
            x: 0,
            y: 0,
            width: -10,
            height: 5,
            color: Rgba::opaque(255, 0, 0),
        },
        OverlayCommand::FillRect {
            x: 0,
            y: 0,
            width: 5,
            height: -3,
            color: Rgba::opaque(255, 0, 0),
        },
    ];
    let failures = validate_commands(&cache, &cmds);
    assert_eq!(failures.len(), 2);
    assert_eq!(failures[0].index, 0);
    assert_eq!(failures[0].error, CommandError::NegativeDimensions);
    assert_eq!(failures[1].index, 1);
}

#[test]
fn validate_drawtext_zero_size_flagged() {
    let cache = GlyphCache::new().unwrap();
    let cmds = vec![OverlayCommand::DrawText {
        x: 0,
        y: 0,
        text: "hi".into(),
        font_id: F,
        size_px: 0,
        style: FontStyle::Regular,
        color: Rgba::opaque(255, 255, 255),
    }];
    let failures = validate_commands(&cache, &cmds);
    assert!(failures
        .iter()
        .any(|f| f.error == CommandError::ZeroFontSize));
}

#[test]
fn validate_drawtext_unknown_font_flagged() {
    let cache = GlyphCache::new().unwrap();
    let cmds = vec![OverlayCommand::DrawText {
        x: 0,
        y: 0,
        text: "hi".into(),
        font_id: FontId(99),
        size_px: 16,
        style: FontStyle::Bold,
        color: Rgba::opaque(255, 255, 255),
    }];
    let failures = validate_commands(&cache, &cmds);
    assert_eq!(failures.len(), 1);
    assert_eq!(
        failures[0].error,
        CommandError::UnknownFont {
            font_id: FontId(99),
            style: FontStyle::Bold,
        }
    );
}

#[test]
fn dispatch_runs_commands_in_list_order() {
    let mut cache = GlyphCache::new().unwrap();
    let mut yp = Vec::new();
    let mut uv = Vec::new();
    black_frame_64x32(&mut yp, &mut uv);
    let stats = {
        let mut frame = view(&mut yp, &mut uv);
        dispatch_commands(
            &mut frame,
            &mut cache,
            &[
                OverlayCommand::FillRect {
                    x: 4,
                    y: 4,
                    width: 16,
                    height: 16,
                    color: Rgba::opaque(255, 0, 0),
                },
                OverlayCommand::FillRect {
                    x: 4,
                    y: 4,
                    width: 16,
                    height: 16,
                    color: Rgba::opaque(0, 0, 255),
                },
            ],
        )
    };
    assert_eq!(stats.fill_rect_executed, 2);
    let v = yp[6 * 64 + 8];
    let blue_y = aicam::renderer::color::rgb_to_ycbcr_rec709_limited(0, 0, 255).y;
    assert_eq!(v, blue_y, "later command must paint over earlier");
}

#[test]
fn dispatch_empty_list_is_noop() {
    let mut cache = GlyphCache::new().unwrap();
    let mut yp = Vec::new();
    let mut uv = Vec::new();
    black_frame_64x32(&mut yp, &mut uv);
    let before_y = yp.clone();
    let stats = {
        let mut frame = view(&mut yp, &mut uv);
        dispatch_commands(&mut frame, &mut cache, &[])
    };
    assert_eq!(stats, DispatchStats::default());
    assert_eq!(yp, before_y);
}

#[test]
fn dispatch_fillrect_alpha_zero_is_noop_and_counted() {
    let mut cache = GlyphCache::new().unwrap();
    let mut yp = Vec::new();
    let mut uv = Vec::new();
    black_frame_64x32(&mut yp, &mut uv);
    let before_y = yp.clone();
    let stats = {
        let mut frame = view(&mut yp, &mut uv);
        dispatch_commands(
            &mut frame,
            &mut cache,
            &[OverlayCommand::FillRect {
                x: 0,
                y: 0,
                width: 10,
                height: 10,
                color: Rgba::new(255, 255, 255, 0),
            }],
        )
    };
    assert_eq!(stats.fill_rect_executed, 0);
    assert_eq!(stats.skipped_no_op, 1);
    assert_eq!(yp, before_y);
}

#[test]
fn dispatch_drawtext_zero_size_is_noop_and_counted() {
    let mut cache = GlyphCache::new().unwrap();
    let mut yp = Vec::new();
    let mut uv = Vec::new();
    black_frame_64x32(&mut yp, &mut uv);
    let stats = {
        let mut frame = view(&mut yp, &mut uv);
        dispatch_commands(
            &mut frame,
            &mut cache,
            &[OverlayCommand::DrawText {
                x: 0,
                y: 0,
                text: "ignored".into(),
                font_id: F,
                size_px: 0,
                style: FontStyle::Regular,
                color: Rgba::opaque(255, 255, 255),
            }],
        )
    };
    assert_eq!(stats.draw_text_executed, 0);
    assert_eq!(stats.skipped_no_op, 1);
}

#[test]
fn dispatch_drawtext_empty_text_is_noop_and_counted() {
    let mut cache = GlyphCache::new().unwrap();
    let mut yp = Vec::new();
    let mut uv = Vec::new();
    black_frame_64x32(&mut yp, &mut uv);
    let stats = {
        let mut frame = view(&mut yp, &mut uv);
        dispatch_commands(
            &mut frame,
            &mut cache,
            &[OverlayCommand::DrawText {
                x: 0,
                y: 0,
                text: String::new(),
                font_id: F,
                size_px: 16,
                style: FontStyle::Regular,
                color: Rgba::opaque(255, 255, 255),
            }],
        )
    };
    assert_eq!(stats.draw_text_executed, 0);
    assert_eq!(stats.skipped_no_op, 1);
}

#[test]
fn dispatch_drawtext_unknown_font_is_skipped() {
    let mut cache = GlyphCache::new().unwrap();
    let mut yp = Vec::new();
    let mut uv = Vec::new();
    black_frame_64x32(&mut yp, &mut uv);
    let before_y = yp.clone();
    let stats = {
        let mut frame = view(&mut yp, &mut uv);
        dispatch_commands(
            &mut frame,
            &mut cache,
            &[OverlayCommand::DrawText {
                x: 0,
                y: 0,
                text: "hi".into(),
                font_id: F,
                size_px: 16,
                style: FontStyle::Regular,
                color: Rgba::opaque(255, 255, 255),
            }],
        )
    };
    assert_eq!(stats.draw_text_executed, 0);
    assert_eq!(stats.skipped_invalid, 1);
    assert_eq!(yp, before_y);
}

#[test]
fn dispatch_drawtext_with_real_font_paints_pixels() {
    let Some(font) = probe_font() else {
        println!("[skip] no system font");
        return;
    };
    let mut cache = GlyphCache::new().unwrap();
    cache.register_font(F, FontStyle::Regular, &font).unwrap();

    let mut yp = Vec::new();
    let mut uv = Vec::new();
    black_frame_64x32(&mut yp, &mut uv);

    let cmds = vec![
        OverlayCommand::FillRect {
            x: 0,
            y: 0,
            width: 64,
            height: 32,
            color: Rgba::new(0, 0, 0, 178),
        },
        OverlayCommand::DrawText {
            x: 8,
            y: 22,
            text: "OK".into(),
            font_id: F,
            size_px: 16,
            style: FontStyle::Regular,
            color: Rgba::opaque(255, 255, 255),
        },
    ];
    let failures = validate_commands(&cache, &cmds);
    assert!(failures.is_empty(), "{failures:?}");

    let stats = {
        let mut frame = view(&mut yp, &mut uv);
        dispatch_commands(&mut frame, &mut cache, &cmds)
    };
    assert_eq!(stats.fill_rect_executed, 1);
    assert_eq!(stats.draw_text_executed, 1);
    let bright = yp.iter().filter(|&&v| v > 200).count();
    assert!(bright > 0, "text command produced no bright Y pixels");
}
