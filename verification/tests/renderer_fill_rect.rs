use aicam::renderer::color::{rgb_to_ycbcr_rec709_limited, YCbCr, Rgba};
use aicam::renderer::fill_rect::{fill_rect_alpha, fill_rect_opaque};
use aicam::renderer::frame::{Nv12FrameMut, Rect};

fn black_frame_64x32(y: &mut Vec<u8>, uv: &mut Vec<u8>) {
    y.clear();
    y.resize(64 * 32, 16);
    uv.clear();
    uv.resize(64 * 16, 128);
}

fn view<'a>(y: &'a mut [u8], uv: &'a mut [u8], w: u32, h: u32) -> Nv12FrameMut<'a> {
    let stride = w as usize;
    Nv12FrameMut::new(y, uv, stride, stride, w, h).unwrap()
}

#[test]
fn opaque_fill_writes_solid_y_and_uv() {
    let mut yp = Vec::new();
    let mut uv = Vec::new();
    black_frame_64x32(&mut yp, &mut uv);
    {
        let mut frame = view(&mut yp, &mut uv, 64, 32);
        fill_rect_opaque(
            &mut frame,
            Rect {
                x: 10,
                y: 4,
                width: 8,
                height: 6,
            },
            Rgba::opaque(255, 0, 0),
        );
    }
    let YCbCr { y, cb, cr } = rgb_to_ycbcr_rec709_limited(255, 0, 0);

    for row in 4..10 {
        for col in 10..18 {
            let v = yp[row * 64 + col];
            assert_eq!(v, y, "y@({},{})", col, row);
        }
    }
    assert_eq!(yp[0], 16);
    assert_eq!(yp[3 * 64 + 10], 16);
    assert_eq!(yp[10 * 64 + 10], 16);

    assert_eq!(uv[204], cb);
    assert_eq!(uv[205], cr);
}

#[test]
fn alpha_zero_is_noop() {
    let mut yp = Vec::new();
    let mut uv = Vec::new();
    black_frame_64x32(&mut yp, &mut uv);
    let before = yp.clone();
    let uv_before = uv.clone();
    {
        let mut frame = view(&mut yp, &mut uv, 64, 32);
        fill_rect_alpha(
            &mut frame,
            Rect {
                x: 10,
                y: 10,
                width: 10,
                height: 10,
            },
            Rgba::new(255, 0, 0, 0),
        );
    }
    assert_eq!(yp, before);
    assert_eq!(uv, uv_before);
}

#[test]
fn alpha_full_matches_opaque() {
    let mut a_y = Vec::new();
    let mut a_uv = Vec::new();
    let mut b_y = Vec::new();
    let mut b_uv = Vec::new();
    black_frame_64x32(&mut a_y, &mut a_uv);
    black_frame_64x32(&mut b_y, &mut b_uv);
    let rect = Rect {
        x: 4,
        y: 2,
        width: 10,
        height: 6,
    };
    {
        let mut frame_a = view(&mut a_y, &mut a_uv, 64, 32);
        fill_rect_opaque(&mut frame_a, rect, Rgba::opaque(0, 255, 0));
    }
    {
        let mut frame_b = view(&mut b_y, &mut b_uv, 64, 32);
        fill_rect_alpha(&mut frame_b, rect, Rgba::new(0, 255, 0, 255));
    }
    assert_eq!(a_y, b_y);
    assert_eq!(a_uv, b_uv);
}

#[test]
fn alpha_half_is_midpoint() {
    let mut yp = Vec::new();
    let mut uv = Vec::new();
    black_frame_64x32(&mut yp, &mut uv);
    {
        let mut frame = view(&mut yp, &mut uv, 64, 32);
        fill_rect_alpha(
            &mut frame,
            Rect {
                x: 4,
                y: 4,
                width: 4,
                height: 4,
            },
            Rgba::new(0, 255, 0, 128),
        );
    }
    let v = yp[4 * 64 + 4];
    assert!((93..=97).contains(&v), "midpoint Y was {v}");
}

#[test]
fn fully_offscreen_is_noop() {
    let mut yp = Vec::new();
    let mut uv = Vec::new();
    black_frame_64x32(&mut yp, &mut uv);
    let before_y = yp.clone();
    let before_uv = uv.clone();
    {
        let mut frame = view(&mut yp, &mut uv, 64, 32);
        fill_rect_opaque(
            &mut frame,
            Rect {
                x: 200,
                y: 200,
                width: 50,
                height: 50,
            },
            Rgba::opaque(255, 255, 255),
        );
        fill_rect_alpha(
            &mut frame,
            Rect {
                x: -100,
                y: -100,
                width: 50,
                height: 50,
            },
            Rgba::new(255, 255, 255, 200),
        );
    }
    assert_eq!(yp, before_y);
    assert_eq!(uv, before_uv);
}

#[test]
fn partially_offscreen_writes_only_visible_part() {
    let mut yp = Vec::new();
    let mut uv = Vec::new();
    black_frame_64x32(&mut yp, &mut uv);
    {
        let mut frame = view(&mut yp, &mut uv, 64, 32);
        fill_rect_opaque(
            &mut frame,
            Rect {
                x: -10,
                y: -5,
                width: 20,
                height: 10,
            },
            Rgba::opaque(255, 255, 255),
        );
    }
    let YCbCr { y: y_white, .. } = rgb_to_ycbcr_rec709_limited(255, 255, 255);
    for row in 0..5 {
        for col in 0..10 {
            assert_eq!(
                yp[row * 64 + col],
                y_white,
                "expected white at ({},{})",
                col,
                row
            );
        }
    }
    assert_eq!(yp[5 * 64], 16, "row below clipped rect must stay black");
    assert_eq!(yp[10], 16, "col right of clipped rect must stay black");
}

#[test]
fn padded_stride_does_not_leak_outside_visible_pixels() {
    let mut yp = vec![16; 80 * 32];
    let mut uv = vec![128; 80 * 16];
    let frame = Nv12FrameMut::new(&mut yp, &mut uv, 80, 80, 64, 32);
    assert!(frame.is_some());
    let mut frame = frame.unwrap();
    fill_rect_opaque(
        &mut frame,
        Rect {
            x: 0,
            y: 0,
            width: 64,
            height: 32,
        },
        Rgba::opaque(255, 255, 255),
    );
    for row in 0..32 {
        assert_eq!(yp[row * 80 + 64], 16, "padding leaked at row {}", row);
        assert_eq!(
            yp[row * 80 + 79],
            16,
            "padding leaked at row {} col 79",
            row
        );
    }
}
