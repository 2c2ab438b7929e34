use aicam::renderer::color::{blend_u8, rgb_to_ycbcr_rec709_limited, Rgba, YCbCr};

#[test]
fn pure_white_maps_to_limited_range_white() {
    let YCbCr { y, cb, cr } = rgb_to_ycbcr_rec709_limited(255, 255, 255);
    assert_eq!(y, 235);
    assert!((cb as i32 - 128).abs() <= 1, "cb={}", cb);
    assert!((cr as i32 - 128).abs() <= 1, "cr={}", cr);
}

#[test]
fn pure_black_maps_to_limited_range_black() {
    let YCbCr { y, cb, cr } = rgb_to_ycbcr_rec709_limited(0, 0, 0);
    assert_eq!(y, 16);
    assert_eq!(cb, 128);
    assert_eq!(cr, 128);
}

#[test]
fn pure_red_pushes_cr_high() {
    let YCbCr { y, cb, cr } = rgb_to_ycbcr_rec709_limited(255, 0, 0);
    assert!((y as i32 - 63).abs() <= 2, "y={}", y);
    assert!((cb as i32 - 102).abs() <= 2, "cb={}", cb);
    assert!((cr as i32 - 240).abs() <= 2, "cr={}", cr);
}

#[test]
fn pure_green_pushes_y_high_chroma_low() {
    let YCbCr { y, cb, cr } = rgb_to_ycbcr_rec709_limited(0, 255, 0);
    assert!((y as i32 - 173).abs() <= 2, "y={}", y);
    assert!((cb as i32 - 42).abs() <= 2, "cb={}", cb);
    assert!((cr as i32 - 26).abs() <= 2, "cr={}", cr);
}

#[test]
fn pure_blue_pushes_cb_high() {
    let YCbCr { y, cb, cr } = rgb_to_ycbcr_rec709_limited(0, 0, 255);
    assert!((y as i32 - 32).abs() <= 2, "y={}", y);
    assert!((cb as i32 - 240).abs() <= 2, "cb={}", cb);
    assert!((cr as i32 - 118).abs() <= 2, "cr={}", cr);
}

#[test]
fn blend_alpha_zero_returns_dst() {
    assert_eq!(blend_u8(128, 200, 0), 128);
    assert_eq!(blend_u8(0, 255, 0), 0);
    assert_eq!(blend_u8(255, 0, 0), 255);
}

#[test]
fn blend_alpha_full_returns_src() {
    assert_eq!(blend_u8(128, 200, 255), 200);
    assert_eq!(blend_u8(0, 255, 255), 255);
    assert_eq!(blend_u8(255, 0, 255), 0);
}

#[test]
fn blend_half_alpha_is_midpoint() {
    let mid = blend_u8(0, 200, 128);
    assert!((99..=101).contains(&mid), "mid={mid}");
}

#[test]
fn contrasting_text_returns_black_on_bright_backgrounds() {
    assert_eq!(
        Rgba::opaque(255, 255, 255).contrasting_text(),
        Rgba::opaque(0, 0, 0)
    );
    assert_eq!(
        Rgba::opaque(242, 217, 38).contrasting_text(),
        Rgba::opaque(0, 0, 0)
    );
    assert_eq!(
        Rgba::opaque(0, 255, 255).contrasting_text(),
        Rgba::opaque(0, 0, 0)
    );
}

#[test]
fn contrasting_text_returns_white_on_dark_backgrounds() {
    assert_eq!(
        Rgba::opaque(0, 0, 0).contrasting_text(),
        Rgba::opaque(255, 255, 255)
    );
    assert_eq!(
        Rgba::opaque(217, 38, 38).contrasting_text(),
        Rgba::opaque(255, 255, 255)
    );
    assert_eq!(
        Rgba::opaque(26, 102, 230).contrasting_text(),
        Rgba::opaque(255, 255, 255)
    );
}

#[test]
fn blends_round_to_the_nearest() {
    assert_eq!(blend_u8(0, 1, 127), 0);
    assert_eq!(blend_u8(0, 1, 128), 1);
    assert_eq!(blend_u8(16, 235, 128), 126);
    for dst in (0..=255i32).step_by(5) {
        for src in (0..=255i32).step_by(3) {
            for alpha in 0..=255i32 {
                let out = blend_u8(dst as u8, src as u8, alpha as u8) as i32;
                let exact = dst * (255 - alpha) + src * alpha;
                assert!((255 * out - exact).abs() <= 127, "{dst} {src} {alpha}");
            }
        }
    }
}
