use aicam::renderer::frame::{ClippedRect, Nv12FrameMut, Rect};

fn dummy_y(stride: usize, height: usize) -> Vec<u8> {
    vec![0; stride * height]
}
fn dummy_uv(stride: usize, height: usize) -> Vec<u8> {
    vec![0; stride * (height / 2)]
}

#[test]
fn frame_construction_accepts_tight_stride() {
    let mut y = dummy_y(1920, 1080);
    let mut uv = dummy_uv(1920, 1080);
    assert!(Nv12FrameMut::new(&mut y, &mut uv, 1920, 1920, 1920, 1080).is_some());
}

#[test]
fn frame_construction_accepts_padded_stride() {
    let mut y = dummy_y(2048, 1080);
    let mut uv = dummy_uv(2048, 1080);
    assert!(Nv12FrameMut::new(&mut y, &mut uv, 2048, 2048, 1920, 1080).is_some());
}

#[test]
fn frame_construction_rejects_zero_dim() {
    let mut y = vec![0; 0];
    let mut uv = vec![0; 0];
    assert!(Nv12FrameMut::new(&mut y, &mut uv, 0, 0, 0, 0).is_none());
}

#[test]
fn frame_construction_rejects_odd_dim() {
    let mut y = dummy_y(1921, 1080);
    let mut uv = dummy_uv(1921, 1080);
    assert!(Nv12FrameMut::new(&mut y, &mut uv, 1921, 1921, 1921, 1080).is_none());
}

#[test]
fn frame_construction_rejects_short_planes() {
    let mut y = vec![0; 1920 * 100];
    let mut uv = dummy_uv(1920, 1080);
    assert!(Nv12FrameMut::new(&mut y, &mut uv, 1920, 1920, 1920, 1080).is_none());
}

#[test]
fn clip_fully_inside_passes_through() {
    let r = Rect {
        x: 10,
        y: 20,
        width: 100,
        height: 80,
    };
    assert_eq!(
        r.clip_to_frame(1920, 1080),
        Some(ClippedRect {
            x: 10,
            y: 20,
            width: 100,
            height: 80,
        })
    );
}

#[test]
fn clip_fully_offscreen_returns_none() {
    assert!(Rect {
        x: 2000,
        y: 0,
        width: 50,
        height: 50
    }
    .clip_to_frame(1920, 1080)
    .is_none());
    assert!(Rect {
        x: 0,
        y: 1200,
        width: 50,
        height: 50
    }
    .clip_to_frame(1920, 1080)
    .is_none());
    assert!(Rect {
        x: -100,
        y: 0,
        width: 50,
        height: 50
    }
    .clip_to_frame(1920, 1080)
    .is_none());
    assert!(Rect {
        x: 0,
        y: -100,
        width: 50,
        height: 50
    }
    .clip_to_frame(1920, 1080)
    .is_none());
}

#[test]
fn clip_partially_offscreen_top_left() {
    let r = Rect {
        x: -10,
        y: -20,
        width: 100,
        height: 80,
    };
    assert_eq!(
        r.clip_to_frame(1920, 1080),
        Some(ClippedRect {
            x: 0,
            y: 0,
            width: 90,
            height: 60,
        })
    );
}

#[test]
fn clip_partially_offscreen_bottom_right() {
    let r = Rect {
        x: 1880,
        y: 1040,
        width: 100,
        height: 80,
    };
    assert_eq!(
        r.clip_to_frame(1920, 1080),
        Some(ClippedRect {
            x: 1880,
            y: 1040,
            width: 40,
            height: 40,
        })
    );
}

#[test]
fn clip_zero_or_negative_dimensions_return_none() {
    assert!(Rect {
        x: 0,
        y: 0,
        width: 0,
        height: 50
    }
    .clip_to_frame(1920, 1080)
    .is_none());
    assert!(Rect {
        x: 0,
        y: 0,
        width: 50,
        height: 0
    }
    .clip_to_frame(1920, 1080)
    .is_none());
    assert!(Rect {
        x: 0,
        y: 0,
        width: -10,
        height: 50
    }
    .clip_to_frame(1920, 1080)
    .is_none());
}

#[test]
fn clip_extreme_coordinates_dont_overflow() {
    let r = Rect {
        x: i32::MIN,
        y: 0,
        width: 100,
        height: 50,
    };
    assert!(r.clip_to_frame(1920, 1080).is_none());
    let r = Rect {
        x: i32::MAX - 10,
        y: 0,
        width: 100,
        height: 50,
    };
    assert!(r.clip_to_frame(1920, 1080).is_none());
}
