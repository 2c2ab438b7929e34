use aicam::commands::{dispatch_commands, OverlayCommand};
use aicam::glyphs::{
    bitmap_from_slot, layout_left_to_right, FontId, FontStyle, GlyphCache, GlyphError, GlyphKey,
    SlotImage,
};
use aicam::renderer::color::Rgba;
use aicam::renderer::frame::Nv12FrameMut;

fn probe_dejavu_regular() -> Option<String> {
    let candidates = [
        "/usr/share/fonts/truetype/dejavu/DejaVuSans.ttf",
        "/usr/share/fonts/TTF/DejaVuSans.ttf",
        "/usr/share/fonts/dejavu/DejaVuSans.ttf",
        "/usr/share/fonts/truetype/liberation/LiberationSans-Regular.ttf",
    ];
    for c in candidates {
        if std::path::Path::new(c).exists() {
            return Some(c.to_string());
        }
    }
    None
}

fn probe_dejavu_bold() -> Option<String> {
    let candidates = [
        "/usr/share/fonts/truetype/dejavu/DejaVuSans-Bold.ttf",
        "/usr/share/fonts/TTF/DejaVuSans-Bold.ttf",
        "/usr/share/fonts/dejavu/DejaVuSans-Bold.ttf",
        "/usr/share/fonts/truetype/liberation/LiberationSans-Bold.ttf",
    ];
    for c in candidates {
        if std::path::Path::new(c).exists() {
            return Some(c.to_string());
        }
    }
    None
}

const TEST_FONT: FontId = FontId(0);

#[test]
fn cache_with_no_font_returns_none_for_get() {
    let mut cache = GlyphCache::new().unwrap();
    assert!(cache
        .get_or_rasterize(GlyphKey {
            font_id: TEST_FONT,
            size_px: 16,
            style: FontStyle::Regular,
            codepoint: 'A',
        })
        .is_none());
    assert!(cache.is_empty());
}

#[test]
fn cache_preload_ascii_fills_95_glyphs() {
    let Some(font) = probe_dejavu_regular() else {
        println!("[skip] no DejaVu/Liberation regular font found on this host");
        return;
    };
    let mut cache = GlyphCache::new().unwrap();
    cache
        .register_font(TEST_FONT, FontStyle::Regular, &font)
        .unwrap();
    let n = cache
        .preload_ascii(TEST_FONT, 16, FontStyle::Regular)
        .unwrap();
    assert_eq!(n, 95, "expected printable-ASCII range = 95 glyphs");
    assert_eq!(cache.len(), 95);
}

#[test]
fn cache_get_returns_cached_glyph_after_preload() {
    let Some(font) = probe_dejavu_regular() else {
        println!("[skip] no font found");
        return;
    };
    let mut cache = GlyphCache::new().unwrap();
    cache
        .register_font(TEST_FONT, FontStyle::Regular, &font)
        .unwrap();
    cache
        .preload_ascii(TEST_FONT, 24, FontStyle::Regular)
        .unwrap();
    let len_before = cache.len();
    let g = cache
        .get_or_rasterize(GlyphKey {
            font_id: TEST_FONT,
            size_px: 24,
            style: FontStyle::Regular,
            codepoint: '5',
        })
        .expect("'5' must be in the printable-ASCII range");
    assert!(g.advance_x > 0, "digit 5 must have positive advance");
    assert!(!g.is_empty(), "'5' must produce a non-empty bitmap");
    assert_eq!(cache.len(), len_before);
}

#[test]
fn cache_lazy_rasterizes_non_ascii() {
    let Some(font) = probe_dejavu_regular() else {
        println!("[skip] no font found");
        return;
    };
    let mut cache = GlyphCache::new().unwrap();
    cache
        .register_font(TEST_FONT, FontStyle::Regular, &font)
        .unwrap();
    let key = GlyphKey {
        font_id: TEST_FONT,
        size_px: 20,
        style: FontStyle::Regular,
        codepoint: 'ô',
    };
    let g = cache
        .get_or_rasterize(key)
        .expect("DejaVu/Liberation carry ô");
    assert!(!g.is_empty());
    assert_eq!(cache.len(), 1);
    let _ = cache.get_or_rasterize(key);
    assert_eq!(cache.len(), 1);
}

#[test]
fn cache_space_glyph_has_advance_but_empty_bitmap() {
    let Some(font) = probe_dejavu_regular() else {
        println!("[skip] no font found");
        return;
    };
    let mut cache = GlyphCache::new().unwrap();
    cache
        .register_font(TEST_FONT, FontStyle::Regular, &font)
        .unwrap();
    let g = cache
        .get_or_rasterize(GlyphKey {
            font_id: TEST_FONT,
            size_px: 16,
            style: FontStyle::Regular,
            codepoint: ' ',
        })
        .unwrap();
    assert!(g.advance_x > 0, "space must advance the pen");
    assert!(g.is_empty(), "space must produce no pixels");
}

#[test]
fn cache_distinct_sizes_dont_clobber_each_other() {
    let Some(font) = probe_dejavu_regular() else {
        println!("[skip] no font found");
        return;
    };
    let mut cache = GlyphCache::new().unwrap();
    cache
        .register_font(TEST_FONT, FontStyle::Regular, &font)
        .unwrap();
    let g16 = cache
        .get_or_rasterize(GlyphKey {
            font_id: TEST_FONT,
            size_px: 16,
            style: FontStyle::Regular,
            codepoint: '0',
        })
        .unwrap()
        .clone();
    let g32 = cache
        .get_or_rasterize(GlyphKey {
            font_id: TEST_FONT,
            size_px: 32,
            style: FontStyle::Regular,
            codepoint: '0',
        })
        .unwrap()
        .clone();
    assert!(g32.advance_x > g16.advance_x, "32px '0' must be wider");
    assert_eq!(cache.len(), 2);
}

#[test]
fn cache_distinct_styles_load_distinct_faces() {
    let (Some(regular), Some(bold)) = (probe_dejavu_regular(), probe_dejavu_bold()) else {
        println!("[skip] need both regular and bold faces");
        return;
    };
    let mut cache = GlyphCache::new().unwrap();
    cache
        .register_font(TEST_FONT, FontStyle::Regular, &regular)
        .unwrap();
    cache
        .register_font(TEST_FONT, FontStyle::Bold, &bold)
        .unwrap();
    let r = cache
        .get_or_rasterize(GlyphKey {
            font_id: TEST_FONT,
            size_px: 24,
            style: FontStyle::Regular,
            codepoint: 'M',
        })
        .unwrap()
        .clone();
    let b = cache
        .get_or_rasterize(GlyphKey {
            font_id: TEST_FONT,
            size_px: 24,
            style: FontStyle::Bold,
            codepoint: 'M',
        })
        .unwrap()
        .clone();
    assert!(
        b.advance_x >= r.advance_x,
        "bold M advance ({}) should be ≥ regular ({})",
        b.advance_x,
        r.advance_x
    );
}

#[test]
fn layout_text_pen_advances_through_string() {
    let Some(font) = probe_dejavu_regular() else {
        println!("[skip] no font found");
        return;
    };
    let mut cache = GlyphCache::new().unwrap();
    cache
        .register_font(TEST_FONT, FontStyle::Regular, &font)
        .unwrap();
    let placements = layout_left_to_right(
        &mut cache,
        "10:49",
        TEST_FONT,
        24,
        FontStyle::Regular,
        100,
        200,
    )
    .expect("font registered");
    assert_eq!(placements.len(), 5);
    for w in placements.windows(2) {
        assert!(
            w[1].x > w[0].x,
            "placement x must advance: {:?} → {:?}",
            w[0],
            w[1]
        );
    }
}

#[test]
fn layout_text_skips_whitespace_placement_but_advances_pen() {
    let Some(font) = probe_dejavu_regular() else {
        println!("[skip] no font found");
        return;
    };
    let mut cache = GlyphCache::new().unwrap();
    cache
        .register_font(TEST_FONT, FontStyle::Regular, &font)
        .unwrap();
    let no_space =
        layout_left_to_right(&mut cache, "ABC", TEST_FONT, 20, FontStyle::Regular, 0, 0)
            .unwrap();
    let with_space =
        layout_left_to_right(&mut cache, "A B C", TEST_FONT, 20, FontStyle::Regular, 0, 0)
            .unwrap();
    assert_eq!(no_space.len(), 3);
    assert_eq!(with_space.len(), 3);
    assert!(
        with_space[2].x > no_space[2].x,
        "spaced 'C' must land further right"
    );
}

#[test]
fn layout_text_with_no_font_returns_none() {
    let mut cache = GlyphCache::new().unwrap();
    assert!(
        layout_left_to_right(&mut cache, "hi", TEST_FONT, 16, FontStyle::Regular, 0, 0)
            .is_none()
    );
}

#[test]
fn missing_font_files_do_not_open() {
    let mut cache = GlyphCache::new().unwrap();
    assert_eq!(
        cache.register_font(TEST_FONT, FontStyle::Regular, "/nonexistent/font.ttf"),
        Err(GlyphError::OpenFace)
    );
    assert!(!cache.has_font(TEST_FONT, FontStyle::Regular));
    assert_eq!(
        cache.preload_ascii(TEST_FONT, 16, FontStyle::Regular),
        Err(GlyphError::NoFont)
    );
}

#[test]
fn slot_images_lose_their_padding() {
    let down = SlotImage {
        width: 2,
        rows: 2,
        pitch: 3,
        buffer: vec![1, 2, 0, 3, 4, 0],
        left: -1,
        top: 7,
        advance: 64 * 5 + 63,
    };
    let g = bitmap_from_slot(&down).unwrap();
    assert_eq!((g.width, g.height), (2, 2));
    assert_eq!(g.alpha, vec![1, 2, 3, 4]);
    assert_eq!((g.bearing_x, g.bearing_y, g.advance_x), (-1, 7, 5));
    let up = SlotImage { pitch: -3, ..down };
    assert_eq!(bitmap_from_slot(&up).unwrap().alpha, vec![3, 4, 1, 2]);
    let short = SlotImage {
        buffer: vec![1, 2, 0],
        ..up
    };
    assert!(bitmap_from_slot(&short).is_none());
    let blank = SlotImage {
        width: 0,
        rows: 0,
        pitch: 0,
        buffer: vec![],
        ..short
    };
    assert!(bitmap_from_slot(&blank).unwrap().is_empty());
}

#[test]
fn registering_again_forgets_the_glyphs() {
    let Some(font) = probe_dejavu_regular() else {
        println!("[skip] no regular font found on this host");
        return;
    };
    let mut cache = GlyphCache::new().unwrap();
    cache
        .register_font(TEST_FONT, FontStyle::Regular, &font)
        .unwrap();
    cache
        .preload_ascii(TEST_FONT, 16, FontStyle::Regular)
        .unwrap();
    assert_eq!(cache.len(), 95);
    cache
        .register_font(TEST_FONT, FontStyle::Regular, &font)
        .unwrap();
    assert!(cache.is_empty());
}

#[test]
fn missing_characters_are_told_once() {
    let Some(font) = probe_dejavu_regular() else {
        println!("[skip] no regular font found on this host");
        return;
    };
    let mut cache = GlyphCache::new().unwrap();
    cache
        .register_font(TEST_FONT, FontStyle::Regular, &font)
        .unwrap();
    for size_px in [16, 20] {
        for codepoint in ['A', '\u{10fffd}'] {
            let _ = cache.get_or_rasterize(GlyphKey {
                font_id: TEST_FONT,
                size_px,
                style: FontStyle::Regular,
                codepoint,
            });
        }
    }
    assert_eq!(cache.take_missing(), vec!['\u{10fffd}']);
    assert!(cache.take_missing().is_empty());
}

#[test]
fn opened_faces_are_installed() {
    let Some(font) = probe_dejavu_regular() else {
        println!("[skip] no regular font found on this host");
        return;
    };
    let library = freetype::Library::init().unwrap();
    let mut cache = GlyphCache::new().unwrap();
    cache.install_face(TEST_FONT, FontStyle::Regular, library.new_face(&font, 0).unwrap());
    assert!(cache.has_font(TEST_FONT, FontStyle::Regular));
    assert_eq!(cache.preload_ascii(TEST_FONT, 16, FontStyle::Regular), Ok(95));
    cache.install_face(TEST_FONT, FontStyle::Regular, library.new_face(&font, 0).unwrap());
    assert!(cache.is_empty());
}

#[test]
fn drawing_cached_texts_adds_no_glyph() {
    let Some(font) = probe_dejavu_regular() else {
        println!("[skip] no regular font found on this host");
        return;
    };
    let mut cache = GlyphCache::new().unwrap();
    cache.register_font(TEST_FONT, FontStyle::Regular, &font).unwrap();
    assert_eq!(cache.preload_ascii(TEST_FONT, 20, FontStyle::Regular), Ok(95));
    let cmds = [OverlayCommand::DrawText {
        x: 1,
        y: 20,
        text: "10:49".into(),
        font_id: TEST_FONT,
        size_px: 20,
        style: FontStyle::Regular,
        color: Rgba::opaque(255, 255, 255),
    }];
    let mut y = vec![16u8; 64 * 32];
    let mut uv = vec![128u8; 64 * 16];
    let mut frame = Nv12FrameMut::new(&mut y, &mut uv, 64, 64, 64, 32).unwrap();
    assert_eq!(dispatch_commands(&mut frame, &mut cache, &cmds).draw_text_executed, 1);
    assert_eq!(cache.len(), 95);
    assert!(y.iter().any(|v| *v != 16));
}
