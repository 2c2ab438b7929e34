//! Recording sessions.

use aicam::clock::{elapsed_millis, Moment};
use aicam::session::{
    is_valid_session_name, join_path, sanitize_session_name, write_pts_csv, RecordingSession,
};

fn moment(secs: i64, nanos: u32) -> Moment {
    Moment {
        secs,
        nanos,
        stamp: format!("stamp{secs}"),
        rfc3339: format!("time{secs}"),
    }
}

#[test]
fn names_hold_letters_digits_and_a_few_signs() {
    assert!(is_valid_session_name("Final game_2-b"));
    assert!(!is_valid_session_name(""));
    assert!(!is_valid_session_name("a/b"));
    assert!(!is_valid_session_name("a.b"));
    assert!(!is_valid_session_name("\u{e4}"));
    assert_eq!(sanitize_session_name("a b  c"), "a_b__c");
    assert!(is_valid_session_name(&sanitize_session_name("a b")));
}

#[test]
fn sessions_are_named_after_their_start() {
    let s = RecordingSession::starting_at(
        moment(5, 0),
        0xbeef,
        "/work",
        "recordings",
        true,
        1920,
        1080,
        30,
        None,
    );
    assert_eq!(s.session_id, "stamp5_0000beef");
    assert_eq!(s.directory, "/work/recordings/stamp5_0000beef");
    assert_eq!(s.video_path(), "/work/recordings/stamp5_0000beef/video.h264");
    assert_eq!(s.audio_path(), "/work/recordings/stamp5_0000beef/audio.flac");
    assert_eq!(
        s.metadata_path(),
        "/work/recordings/stamp5_0000beef/session.json"
    );
    assert_eq!(s.pts_path(), "/work/recordings/stamp5_0000beef/pts.csv");
    let s = RecordingSession::starting_at(
        moment(5, 0),
        1,
        "/work",
        "/abs",
        false,
        640,
        480,
        25,
        Some("final"),
    );
    assert_eq!(s.session_id, "stamp5_final");
    assert_eq!(s.directory, "/abs/stamp5_final");
    assert_eq!(s.name.as_deref(), Some("final"));
}

#[test]
fn sessions_start_now() {
    let s = RecordingSession::new("/w", "r", true, 1, 2, 3, None);
    let stamp = s.start_time.stamp.as_str();
    assert_eq!(stamp.len(), 19);
    assert_eq!(stamp.as_bytes()[10], b'T');
    assert_eq!(stamp.as_bytes()[13], b'-');
    assert!(s.session_id.starts_with(stamp));
    assert_eq!(s.session_id.len(), stamp.len() + 9);
    assert!(s.start_time.secs > 1_600_000_000);
    assert!(s.start_time.rfc3339.contains('T'));
    let m = s.write_metadata("completed");
    assert!(m.duration_ms.unwrap() >= 0);
}

#[test]
fn metadata_tells_the_streams() {
    let mut s = RecordingSession::starting_at(
        moment(5, 900_000_000),
        7,
        "/work",
        "rec",
        true,
        1920,
        1080,
        30,
        None,
    );
    s.collect_file_sizes(Some(100), Some(20));
    let m = s.metadata_at("completed", &moment(7, 400_000_000));
    assert_eq!(m.session_id, s.session_id);
    assert_eq!(m.duration_ms, Some(1500));
    assert_eq!(m.start_time.as_deref(), Some("time5"));
    assert_eq!(m.end_time.as_deref(), Some("time7"));
    assert_eq!(m.streams.len(), 2);
    assert_eq!(m.streams[0].file_name, "video.h264");
    assert_eq!(m.streams[1].codec, "flac");
    assert_eq!(m.streams[1].status, "completed");
    assert_eq!(m.video_file_size, Some(100));
    assert_eq!(m.audio_file_size, Some(20));
    assert_eq!(m.actual_frame_count, None);
    let mut silent = RecordingSession { audio_enabled: false, ..s };
    silent.collect_file_sizes(Some(9), Some(8));
    assert_eq!(silent.video_file_size, Some(9));
    assert_eq!(silent.audio_file_size, Some(20));
    assert_eq!(silent.metadata_at("failed", &moment(7, 0)).streams.len(), 1);
}

#[test]
fn durations_drop_the_fraction() {
    assert_eq!(elapsed_millis(&moment(1, 0), &moment(1, 1_999_999)), 1);
    assert_eq!(elapsed_millis(&moment(1, 1_999_999), &moment(1, 0)), -1);
    assert_eq!(elapsed_millis(&moment(1, 500), &moment(3, 500)), 2000);
}

#[test]
fn paths_are_joined_like_paths() {
    assert_eq!(join_path("/a", "b"), "/a/b");
    assert_eq!(join_path("/a/", "b"), "/a/b");
    assert_eq!(join_path("/a", "/b"), "/b");
    assert_eq!(join_path("", "b"), "b");
}

#[test]
fn time_stamps_are_written_as_rows() {
    assert_eq!(write_pts_csv(&vec![]), "frame_index,pts_ns\n");
    assert_eq!(
        write_pts_csv(&vec![(0, 33), (1, 66)]),
        "frame_index,pts_ns\n0,33\n1,66\n"
    );
}

#[test]
fn cleaned_names_stay_clean() {
    for name in ["", "a b", " ", "x/y z", "\u{e4} \u{e4}"] {
        let once = sanitize_session_name(name);
        assert_eq!(once.chars().count(), name.chars().count());
        assert!(!once.contains(' '));
        assert_eq!(sanitize_session_name(&once), once);
    }
}

#[test]
fn sessions_start_at_a_moment_in_universal_time() {
    let s = RecordingSession::new("/work", "rec", false, 640, 480, 30, None);
    assert!(s.start_time.rfc3339.ends_with("+00:00"));
    assert_eq!(&s.start_time.rfc3339[10..11], "T");
    assert_eq!(&s.start_time.stamp[..10], &s.start_time.rfc3339[..10]);
}
