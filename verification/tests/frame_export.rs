//! Frame export and preview.

use aicam::floats::{multiply_up, nearest_whole, round_share, scale_size, Binary32};
use aicam::frame_export::{
    frame_reference, frame_subsample, plan_frame, reference_at, FrameExportConfig,
};
use aicam::object_detection_preview::new_object_detection_preview_buffer;

fn number(x: f32) -> Binary32 {
    Binary32 { bits: x.to_bits() }
}

#[test]
fn the_defaults() {
    let c = FrameExportConfig::default();
    assert_eq!((c.subsample, c.ring_size), (3, 3));
    assert_eq!((c.width, c.height), (640, 480));
    assert_eq!(c.frame_dir, "/tmp/aicam-frames");
    assert_eq!(c.zmq_endpoint, "tcp://127.0.0.1:5559");
    assert_eq!(c.session_id.len(), 13);
    assert!(c.session_id.starts_with("live-"));
    assert!(c.session_id[5..].chars().all(|d| d.is_ascii_hexdigit()));
}

#[test]
fn every_third_frame_is_exported() {
    let c = FrameExportConfig::default();
    assert!(plan_frame(&c, 1).is_none());
    assert!(plan_frame(&c, 2).is_none());
    let job = plan_frame(&c, 3).unwrap();
    assert_eq!(job.frame_path, "/tmp/aicam-frames/frame_000003.raw");
    assert_eq!(job.draft_path, "/tmp/aicam-frames/frame_000003.raw.tmp");
    assert_eq!(job.latest_path, "/tmp/aicam-frames/latest.raw");
    assert_eq!(job.frame_id, "frame-000003");
    assert_eq!(job.expired_path, None);
}

#[test]
fn the_ring_keeps_the_latest_frames() {
    let c = FrameExportConfig::default();
    let mut files: Vec<String> = vec![];
    for index in 0..100 {
        if let Some(job) = plan_frame(&c, index) {
            files.push(job.frame_path);
            if let Some(old) = job.expired_path {
                files.retain(|f| *f != old);
            }
            assert!(files.len() <= 3);
        }
    }
    assert_eq!(
        files,
        vec![
            "/tmp/aicam-frames/frame_000093.raw",
            "/tmp/aicam-frames/frame_000096.raw",
            "/tmp/aicam-frames/frame_000099.raw"
        ]
    );
}

#[test]
fn spacing_follows_the_rates() {
    let spacing = |fps: u32, rate: f32| frame_subsample(fps, Some(number(rate)));
    assert_eq!(spacing(30, 10.0), 3);
    assert_eq!(spacing(30, 4.0), 8);
    assert_eq!(spacing(30, 60.0), 1);
    assert_eq!(spacing(30, 0.0), 300);
    assert_eq!(spacing(30, -4.0), 300);
    assert_eq!(spacing(30, f32::NAN), 300);
    assert_eq!(spacing(30, f32::INFINITY), 1);
    assert_eq!(frame_subsample(30, None), 10);
    assert_eq!(spacing(0, 3.0), 1);
    assert_eq!(spacing(u32::MAX, 0.1), u32::MAX);
    for fps in [1u32, 7, 15, 24, 25, 29, 30, 50, 60, 119, 16_777_217, 400_000_001] {
        for rate in [
            0.1f32, 0.100001, 0.3, 0.7, 1.0, 1.1, 2.0, 3.3, 4.0, 12.5, 29.97, 1e5, 3e30,
        ] {
            let expected = ((fps as f32 / rate).round() as u32).max(1);
            assert_eq!(spacing(fps, rate), expected, "{fps} over {rate}");
        }
    }
}

#[test]
fn numbers_round_to_the_nearest() {
    for x in [0.49f32, 0.5, 1.49, 1.5, 2.5, 3.5, 1e6, 8388607.5, 4e9, 5e9] {
        assert_eq!(
            nearest_whole(number(x), u32::MAX),
            (x.round() as u32).max(1),
            "{x}"
        );
    }
    assert_eq!(nearest_whole(number(100.0), 30), 30);
}

#[test]
fn sizes_scale_as_in_single_precision() {
    for milli in [1u32, 333, 1_000, 6_500, 22_000, 44_300, 120_000, 220_000, 4_000_000_000] {
        for width in [
            0u32, 1, 2, 504, 640, 854, 1000, 1008, 1280, 1920, 2000, 2016, 3840, 7680, 16_777_217,
        ] {
            let expected = ((milli as f32 / 1000.0) * (width as f32 / 1920.0)).round() as u64;
            assert_eq!(scale_size(milli, width), expected, "{milli} at {width}");
        }
    }
}

#[test]
fn frames_are_announced() {
    let c = FrameExportConfig::default();
    let job = plan_frame(&c, 6).unwrap();
    let r = reference_at(&c, 6, &job, 921_600, "abc", "noon");
    assert_eq!(r.message_id, "live-abc");
    assert_eq!(r.created_at, "noon");
    assert_eq!(r.session_id, c.session_id);
    assert_eq!(r.frame_id, "frame-000006");
    assert_eq!(r.frame_index, 6);
    assert_eq!(r.name, job.frame_path);
    assert_eq!((r.width_px, r.height_px, r.length), (640, 480, 921_600));
    let a = frame_reference(&c, 6, &job, 1);
    let b = frame_reference(&c, 6, &job, 1);
    assert_ne!(a.message_id, b.message_id);
    assert_eq!(a.message_id.len(), 5 + 36);
    let time: Vec<char> = a.created_at.chars().collect();
    for (at, sign) in [(4, '-'), (7, '-'), (10, 'T'), (13, ':'), (16, ':')] {
        assert_eq!(time[at], sign);
    }
    assert!(time[..4].iter().all(|c| c.is_ascii_digit()));
    assert!(a.created_at.ends_with("+00:00"));
    assert!([25, 29, 32, 35].contains(&time.len()));
}

#[test]
fn the_preview_holds_the_latest_image() {
    let mut b = new_object_detection_preview_buffer();
    assert!(!b.has_frame());
    b.store(&[1, 2, 3]);
    assert!(b.has_frame());
    b.store(&[4]);
    assert_eq!(b.frame, vec![4]);
}

#[test]
fn products_round_up_as_in_single_precision() {
    for percent in [62u32, 65, 70] {
        let factor = percent as f32 / 100.0;
        for count in [0u64, 1, 2, 3, 7, 20, 50, 61, 1000, 16_777_217, u64::MAX] {
            for size in [0u32, 1, 10, 22, 44, 50, 100, 806_597, 845_671, 16_777_217, u32::MAX] {
                let expected = (count as f32 * size as f32 * factor).ceil() as u128;
                assert_eq!(multiply_up(count, size, percent), expected, "{count} {size}");
            }
        }
    }
    assert_eq!([0.62f32, 0.65, 0.7], [62.0f32 / 100.0, 65.0 / 100.0, 70.0 / 100.0]);
}

#[test]
fn shares_round_as_in_single_precision() {
    for size in [0u32, 1, 10, 11, 12, 22, 1000, 1_228_803, 1_300_007, 16_777_217, u32::MAX] {
        assert_eq!(round_share(size, 85), (size as f32 * 0.85).round() as u64, "{size}");
    }
}

#[test]
fn sessions_are_called_after_the_identifier() {
    let c = FrameExportConfig::for_session("0a1b2c3d-0000-4000-8000-000000000000");
    assert_eq!(c.session_id, "live-0a1b2c3d");
    assert_eq!((c.subsample, c.ring_size, c.width, c.height), (3, 3, 640, 480));
    assert_ne!(
        FrameExportConfig::default().session_id,
        FrameExportConfig::default().session_id
    );
}
