use aicam::glyphs::{FontId, FontStyle, GlyphBitmap, GlyphCache, GlyphKey};
use aicam::renderer::color::Rgba;
use aicam::renderer::frame::Nv12FrameMut;
use aicam::renderer::glyph_blit::blit_glyph;

fn probe_font() -> Option<String> {
    let candidates = [
        "/usr/share/fonts/truetype/dejavu/DejaVuSans.ttf",
        "/usr/share/fonts/TTF/DejaVuSans.ttf",
        "/usr/share/fonts/dejavu/DejaVuSans.ttf",
        "/usr/share/fonts/truetype/liberation/LiberationSans-Regular.ttf",
    ];
    for c in candidates {
        if std::path::Path::new(c).exists() {
            return Some(c.to_string());
        }
    }
    None
}

fn black_frame(w: u32, h: u32) -> (Vec<u8>, Vec<u8>) {
    (
        vec![16u8; (w * h) as usize],
        vec![128u8; (w * h / 2) as usize],
    )
}

fn synthetic_glyph_4x4_full() -> GlyphBitmap {
    GlyphBitmap {
        width: 4,
        height: 4,
        bearing_x: 0,
        bearing_y: 4,
        advance_x: 4,
        alpha: vec![255u8; 16],
    }
}

fn synthetic_glyph_diagonal() -> GlyphBitmap {
    let mut alpha = vec![0u8; 16];
    for i in 0..4 {
        alpha[i * 4 + i] = 255;
    }
    GlyphBitmap {
        width: 4,
        height: 4,
        bearing_x: 0,
        bearing_y: 4,
        advance_x: 4,
        alpha,
    }
}

#[test]
fn empty_glyph_is_noop() {
    let (mut yp, mut uv) = black_frame(32, 16);
    let before_y = yp.clone();
    let before_uv = uv.clone();
    {
        let mut frame = Nv12FrameMut::new(&mut yp, &mut uv, 32, 32, 32, 16).unwrap();
        blit_glyph(
            &mut frame,
            &GlyphBitmap {
                width: 0,
                height: 0,
                bearing_x: 0,
                bearing_y: 0,
                advance_x: 6,
                alpha: vec![],
            },
            4,
            4,
            Rgba::opaque(255, 255, 255),
        );
    }
    assert_eq!(yp, before_y);
    assert_eq!(uv, before_uv);
}

#[test]
fn fully_opaque_white_glyph_writes_white_y_inside_mask() {
    let (mut yp, mut uv) = black_frame(32, 16);
    {
        let mut frame = Nv12FrameMut::new(&mut yp, &mut uv, 32, 32, 32, 16).unwrap();
        blit_glyph(
            &mut frame,
            &synthetic_glyph_4x4_full(),
            4,
            4,
            Rgba::opaque(255, 255, 255),
        );
    }
    for row in 4..8 {
        for col in 4..8 {
            assert_eq!(yp[row * 32 + col], 235, "y@({},{})", col, row);
        }
    }
    assert_eq!(yp[0], 16);
    assert_eq!(yp[3 * 32 + 4], 16, "row above must stay black");
    assert_eq!(yp[4 * 32 + 3], 16, "col left must stay black");
}

#[test]
fn alpha_zero_color_is_noop_even_with_full_mask() {
    let (mut yp, mut uv) = black_frame(32, 16);
    let before_y = yp.clone();
    {
        let mut frame = Nv12FrameMut::new(&mut yp, &mut uv, 32, 32, 32, 16).unwrap();
        blit_glyph(
            &mut frame,
            &synthetic_glyph_4x4_full(),
            4,
            4,
            Rgba::new(255, 0, 0, 0),
        );
    }
    assert_eq!(yp, before_y);
}

#[test]
fn diagonal_mask_only_writes_diagonal_pixels() {
    let (mut yp, mut uv) = black_frame(32, 16);
    {
        let mut frame = Nv12FrameMut::new(&mut yp, &mut uv, 32, 32, 32, 16).unwrap();
        blit_glyph(
            &mut frame,
            &synthetic_glyph_diagonal(),
            4,
            4,
            Rgba::opaque(255, 255, 255),
        );
    }
    for row in 0..16 {
        for col in 0..32 {
            let v = yp[row * 32 + col];
            let on_diag =
                (4..8).contains(&row) && (4..8).contains(&col) && (col - 4) == (row - 4);
            let expected: u8 = if on_diag { 235 } else { 16 };
            assert_eq!(v, expected, "y@({},{}) expected {}", col, row, expected);
        }
    }
}

#[test]
fn glyph_clipped_to_frame_at_top_left() {
    let (mut yp, mut uv) = black_frame(32, 16);
    {
        let mut frame = Nv12FrameMut::new(&mut yp, &mut uv, 32, 32, 32, 16).unwrap();
        blit_glyph(
            &mut frame,
            &synthetic_glyph_4x4_full(),
            -2,
            -2,
            Rgba::opaque(255, 255, 255),
        );
    }
    for row in 0..2 {
        for col in 0..2 {
            assert_eq!(yp[row * 32 + col], 235);
        }
    }
    assert_eq!(yp[2], 16);
    assert_eq!(yp[2 * 32], 16);
}

#[test]
fn glyph_fully_offscreen_is_noop() {
    let (mut yp, mut uv) = black_frame(32, 16);
    let before_y = yp.clone();
    {
        let mut frame = Nv12FrameMut::new(&mut yp, &mut uv, 32, 32, 32, 16).unwrap();
        blit_glyph(
            &mut frame,
            &synthetic_glyph_4x4_full(),
            100,
            100,
            Rgba::opaque(255, 0, 0),
        );
        blit_glyph(
            &mut frame,
            &synthetic_glyph_4x4_full(),
            -100,
            -100,
            Rgba::opaque(0, 255, 0),
        );
    }
    assert_eq!(yp, before_y);
}

#[test]
fn real_freetype_glyph_blits_visible_pixels() {
    let Some(font) = probe_font() else {
        println!("[skip] no system font");
        return;
    };
    const F: FontId = FontId(0);
    let mut cache = GlyphCache::new().unwrap();
    cache.register_font(F, FontStyle::Regular, &font).unwrap();
    let g = cache
        .get_or_rasterize(GlyphKey {
            font_id: F,
            size_px: 16,
            style: FontStyle::Regular,
            codepoint: 'O',
        })
        .unwrap()
        .clone();
    assert!(!g.is_empty());

    let (mut yp, mut uv) = black_frame(64, 32);
    {
        let mut frame = Nv12FrameMut::new(&mut yp, &mut uv, 64, 64, 64, 32).unwrap();
        blit_glyph(&mut frame, &g, 8, 8, Rgba::opaque(255, 255, 255));
    }
    let any_painted = yp.iter().any(|&v| v > 16);
    assert!(any_painted, "real glyph blit produced no visible pixels");
}
