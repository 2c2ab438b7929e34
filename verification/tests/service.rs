//! The service's state: requests, failures, start and stop.

use aicam::devices::{AudioDevice, CameraDevice};
use aicam::floats::Binary64;
use aicam::pipeline::{AiConfig, ResolvedModel};
use aicam::service::config::{load_config, MediaConfig};
use aicam::service::startup::{StartRequest, Startup, StartupStep};
use aicam::service::state::{
    failure_detail, ConsumerKind, FeatureToggleRequest, InputSource, Invalidation, MediaState,
    PipelineKind, RecordingGate, RecordingPipelines, RecordingRequest, RuntimeStatus, Service,
    StreamingGate,
};
use aicam::service::system::{env_flag, grace_period, is_tmpfs};
use aicam::service::watch::{BusEvent, ReplayWatch, WatchStep};

fn fresh() -> Service {
    Service::new(RuntimeStatus::default())
}

fn speed(x: f64) -> Binary64 {
    Binary64 { bits: x.to_bits() }
}

/// Run a start, where each step goes as `works` says. Gives the steps.
fn run_start(
    service: &mut Service,
    mut startup: Startup,
    sound: bool,
    works: impl Fn(StartupStep) -> bool,
) -> Vec<StartupStep> {
    let mut steps = vec![];
    loop {
        let step = startup.step;
        steps.push(step);
        if let StartupStep::Finished(_) = step {
            return steps;
        }
        let ok = works(step);
        if step == StartupStep::BuildLive && ok {
            startup.publishes_sound(sound);
        }
        startup.report(ok, service);
    }
}

fn running(sound: bool, model: bool) -> Service {
    let mut s = fresh();
    let steps = run_start(&mut s, Startup::begin(true, model), sound, |_| true);
    assert_eq!(steps.last(), Some(&StartupStep::Finished(true)));
    s
}

#[test]
fn test_status_default_idle() {
    let s = fresh();
    assert_eq!(s.status.state, MediaState::Idle);
    assert!(!s.status.recording_active);
}

#[test]
fn test_recording_lifecycle() {
    let mut s = fresh();
    assert_eq!(s.request_recording(None), RecordingRequest::Prepare(None));
    let RecordingGate::Refused(f) = s.admit_recording(false) else {
        panic!("no producer, no recording");
    };
    assert_eq!(f.code, 500);
    assert!(!f.error.is_empty());
    let stop = s.stop_recording();
    assert!(!stop.close);
    assert!(!s.status.recording_active);
    assert_eq!(s.status.state, MediaState::Idle);

    let mut s = running(true, false);
    assert_eq!(s.admit_recording(true), RecordingGate::Record(true));
    s.recording_started("2026-01-01T00:00:00+00:00".to_string());
    assert!(s.status.recording_active);
    assert_eq!(s.request_recording(None), RecordingRequest::AlreadyActive);
    assert_eq!(s.admit_recording(true), RecordingGate::AlreadyActive);
    let stop = s.stop_recording();
    assert!(stop.close && !stop.rebuild);
    assert!(!s.status.recording_active);
    assert_eq!(s.status.recording_started_at, None);
    assert_eq!(s.status.state, MediaState::Running);
}

#[test]
fn test_recording_rejects_invalid_session_name() {
    let s = fresh();
    let RecordingRequest::Refused(f) = s.request_recording(Some("bad/name")) else {
        panic!("must be refused");
    };
    assert_eq!(f.code, 400);
    assert_eq!(f.error, "invalid session name");
    assert_eq!(
        f.detail.as_deref(),
        Some("only [a-zA-Z0-9 _-] allowed, got: bad/name")
    );
    assert_eq!(
        s.request_recording(Some("final game")),
        RecordingRequest::Prepare(Some("final_game".to_string()))
    );
    assert_eq!(
        s.request_recording(Some("")),
        RecordingRequest::Prepare(None)
    );
}

#[test]
fn test_stop_pipeline_resets_all() {
    let mut s = running(true, true);
    s.recording_started("now".to_string());
    s.streaming_started();
    let list = s.stop_pipeline();
    assert_eq!(s.status.state, MediaState::Idle);
    assert!(!s.status.recording_active);
    assert!(!s.status.streaming_enabled);
    assert_eq!(
        list,
        vec![
            PipelineKind::Streaming,
            PipelineKind::RecordingVideo,
            PipelineKind::RecordingAudio,
            PipelineKind::Ai,
            PipelineKind::FrameExport,
            PipelineKind::Live,
        ]
    );
    assert_eq!(s.stop_pipeline(), Vec::<PipelineKind>::new());
}

#[test]
fn test_replay_rejects_when_recording_active() {
    let mut s = fresh();
    s.status.recording_active = true;
    let f = s.request_replay("/tmp/test.mp4", true, speed(1.0)).unwrap();
    assert_eq!(f.code, 409);
    assert_eq!(f.error, "recording active");
}

#[test]
fn test_replay_rejects_non_mp4_path() {
    let s = fresh();
    let f = s.request_replay("/tmp/test.mkv", true, speed(1.0)).unwrap();
    assert_eq!(f.code, 400);
    assert_eq!(f.error, "path must end with .mp4");
}

#[test]
fn test_replay_rejects_missing_file() {
    let s = fresh();
    let path = "/tmp/nonexistent_replay_file.mp4";
    let f = s
        .request_replay(path, std::path::Path::new(path).exists(), speed(1.0))
        .unwrap();
    assert_eq!(f.code, 400);
    assert_eq!(f.error, "file not found");
    assert_eq!(f.path.as_deref(), Some(path));
    assert_eq!((f.detail, f.got), (None, None));
}

#[test]
fn replay_rejects_impossible_speeds() {
    let s = fresh();
    for x in [-1.0, f64::NAN, f64::INFINITY] {
        let f = s.request_replay("/tmp/a.mp4", true, speed(x)).unwrap();
        assert_eq!(f.code, 400);
        assert_eq!(f.error, "speed must be 0 (max) or a positive finite number");
        assert_eq!(f.got, Some(speed(x)));
        assert_eq!((f.detail, f.path), (None, None));
    }
    assert_eq!(s.request_replay("/tmp/a.mp4", true, speed(0.0)), None);
    assert_eq!(s.request_replay("/tmp/a.mp4", true, speed(2.5)), None);
}

#[test]
fn test_replay_status_inactive() {
    let s = fresh();
    let r = s.replay_status(12_345);
    assert!(!r.active);
    assert_eq!(r.path, None);
    assert_eq!(r.position_ns, 0);
    assert_eq!(r.duration_ns, 0);
}

#[test]
fn test_replay_stop_idempotent_when_inactive() {
    let mut s = fresh();
    let before = s.clone();
    assert!(!s.do_stop_replay());
    assert_eq!(s, before);
}

#[test]
fn replay_position_runs_to_the_end() {
    let mut s = running(false, false);
    s.replay_started("/tmp/a.mp4".to_string(), 1_000, 500);
    assert_eq!(s.status.input_source, InputSource::ReplayFile);
    assert_eq!(s.replay_status(1_000).position_ns, 0);
    assert_eq!(s.replay_status(1_200).position_ns, 200);
    assert_eq!(s.replay_status(9_000).position_ns, 500);
    assert_eq!(s.replay_status(0).position_ns, 0);
    assert_eq!(s.replay_status(1_200).path.as_deref(), Some("/tmp/a.mp4"));
    assert!(s.do_stop_replay());
    assert_eq!(s.status.input_source, InputSource::Camera);
    assert!(!s.replay_status(1_200).active);
}

#[test]
fn start_takes_its_steps_in_order() {
    let mut s = fresh();
    assert_eq!(s.ensure_live_producer(), StartRequest::Build);
    let steps = run_start(&mut s, Startup::begin(true, true), true, |_| true);
    assert_eq!(
        steps,
        vec![
            StartupStep::BuildLive,
            StartupStep::BuildAi,
            StartupStep::BuildFrameExport,
            StartupStep::StartLive,
            StartupStep::StartFrameExport,
            StartupStep::BuildRecordingVideo,
            StartupStep::BuildRecordingAudio,
            StartupStep::StartRecordingVideo,
            StartupStep::StartRecordingAudio,
            StartupStep::StartAi,
            StartupStep::Finished(true),
        ]
    );
    assert_eq!(s.status.state, MediaState::Running);
    assert_eq!(s.slots.live, Some(true));
    assert!(s.slots.ai && s.slots.frame_export);
    assert_eq!(
        s.slots.recording,
        Some(RecordingPipelines {
            audio: true,
            active: false
        })
    );
    assert_eq!(s.ensure_live_producer(), StartRequest::AlreadyRunning);
}

#[test]
fn start_goes_on_without_what_fails() {
    let mut s = fresh();
    let steps = run_start(&mut s, Startup::begin(true, true), true, |step| {
        !matches!(
            step,
            StartupStep::StartAi
                | StartupStep::StartFrameExport
                | StartupStep::StartRecordingVideo
                | StartupStep::BuildRecordingAudio
        )
    });
    assert_eq!(steps.last(), Some(&StartupStep::Finished(true)));
    assert!(steps.contains(&StartupStep::DiscardRecording));
    assert!(steps.contains(&StartupStep::DiscardAi));
    assert!(!s.slots.ai && !s.slots.frame_export && s.slots.recording.is_none());
    assert_eq!(s.status.state, MediaState::Running);
    let RecordingGate::Refused(f) = s.admit_recording(true) else {
        panic!("there is nothing to record with");
    };
    assert_eq!(f.error, "recording pipelines unavailable");
}

#[test]
fn start_fails_without_a_producer() {
    for failing in [StartupStep::BuildLive, StartupStep::StartLive] {
        let mut s = fresh();
        let steps = run_start(&mut s, Startup::begin(false, true), false, |step| {
            step != failing
        });
        assert_eq!(steps.last(), Some(&StartupStep::Finished(false)));
        assert_eq!(s.status.state, MediaState::Error);
        assert_eq!(s.slots.live, None);
    }
}

#[test]
fn models_wait_for_the_end_of_a_recording() {
    let mut s = fresh();
    assert_eq!(s.invalidate_ai_config(), Invalidation::NextStart);

    let mut s = running(false, true);
    s.recording_started("now".to_string());
    let slots = s.slots;
    assert_eq!(s.invalidate_ai_config(), Invalidation::Deferred);
    assert_eq!(s.slots, slots);
    let stop = s.stop_recording();
    assert!(stop.close && stop.rebuild);
    assert_eq!(
        s.rebuild(),
        vec![
            PipelineKind::RecordingVideo,
            PipelineKind::Ai,
            PipelineKind::FrameExport,
            PipelineKind::Live
        ]
    );
    assert_eq!(s.ensure_live_producer(), StartRequest::Reload);

    let mut s = running(false, false);
    assert_eq!(
        s.invalidate_ai_config(),
        Invalidation::Rebuild(vec![
            PipelineKind::RecordingVideo,
            PipelineKind::FrameExport,
            PipelineKind::Live
        ])
    );
    assert_eq!(s.status.state, MediaState::Idle);
}

#[test]
fn streams_take_the_scaled_bitrate_unless_told() {
    let mut config = MediaConfig::default();
    config.width = 1280;
    config.height = 720;
    let s = running(true, false);
    assert_eq!(
        s.request_streaming(&config, None, false),
        StreamingGate::Stream(3640, false)
    );
    assert_eq!(
        s.request_streaming(&config, Some(499), true),
        StreamingGate::Stream(3640, true)
    );
    assert_eq!(
        s.request_streaming(&config, Some(500), false),
        StreamingGate::Stream(500, false)
    );
    let mut s = fresh();
    let StreamingGate::Refused(f) = s.request_streaming(&config, None, false) else {
        panic!("nothing to stream");
    };
    assert_eq!(f.code, 500);
    assert_eq!(f.error, "live producer pipeline not running");
    s.streaming_started();
    assert_eq!(
        s.request_streaming(&config, None, false),
        StreamingGate::AlreadyActive
    );
}

#[test]
fn streams_that_carry_nothing_are_stopped() {
    let mut s = running(true, false);
    s.streaming_started();
    assert!(!s.check_streaming_flow(1, 10));
    assert!(s.status.streaming_enabled);
    assert!(s.check_streaming_flow(0, 10));
    assert!(!s.status.streaming_enabled);
    assert_eq!(
        s.status.streaming_error.as_deref(),
        Some("stream_flvmux emitted 0 buffers in 10s - probable GStreamer state issue (rtmpsink connected but muxer not producing, or producer-side intervideosink not publishing)")
    );
    assert!(!s.check_streaming_flow(0, 10));
    s.streaming_started();
    assert_eq!(s.status.streaming_error, None);
    assert!(s.streaming_failed("stream_sink", "Could not connect"));
    assert_eq!(
        s.status.streaming_error.as_deref(),
        Some("stream_sink: Could not connect")
    );
    assert!(!s.stop_streaming());
}

#[test]
fn recordings_that_carry_nothing_are_stopped() {
    let mut s = running(false, false);
    assert!(!s.check_recording_flow(0, 3));
    s.recording_started("now".to_string());
    assert!(!s.check_recording_flow(7, 3));
    assert!(s.check_recording_flow(0, 3));
    assert!(!s.status.recording_active);
    assert_eq!(
        s.status.recording_error.as_deref(),
        Some("rec_encoder received 0 buffers in 3s - probable GStreamer state issue (valve opened but inter-pipeline source not delivering to rec consumer)")
    );
}

#[test]
fn failing_pipelines_take_their_partner_along() {
    let mut s = running(true, true);
    s.recording_started("now".to_string());
    assert!(s.consumer_slot_present(ConsumerKind::RecordingAudio));
    let list = s.tear_down_consumer(
        ConsumerKind::RecordingAudio,
        failure_detail("audio_rec_filesink", "disk full"),
    );
    assert_eq!(
        list,
        vec![PipelineKind::RecordingVideo, PipelineKind::RecordingAudio]
    );
    assert!(!s.status.recording_active);
    assert_eq!(
        s.status.recording_error.as_deref(),
        Some("audio_rec_filesink: disk full")
    );
    assert!(!s.consumer_slot_present(ConsumerKind::RecordingVideo));
    let list = s.tear_down_consumer(ConsumerKind::Ai, failure_detail("", "gone"));
    assert_eq!(list, vec![PipelineKind::Ai]);
    assert_eq!(s.status.ai_error.as_deref(), Some("gone"));
    let list = s.tear_down_consumer(ConsumerKind::FrameExport, "eos".to_string());
    assert_eq!(list, vec![PipelineKind::FrameExport]);
    assert_eq!(ConsumerKind::FrameExport.label(), "frame_export");
    s.handle_bus_error();
    assert_eq!(s.status.state, MediaState::Error);
}

#[test]
fn features_are_switched_where_asked() {
    let mut s = fresh();
    s.update_features(FeatureToggleRequest {
        streaming_enabled: Some(true),
    });
    assert!(s.status.streaming_enabled);
    s.update_features(FeatureToggleRequest {
        streaming_enabled: None,
    });
    assert!(s.status.streaming_enabled);
}

#[test]
fn status_tells_the_devices() {
    let s = RuntimeStatus::with_detected_devices(
        Some(CameraDevice {
            path: "/dev/video0".to_string(),
            name: "Cam".to_string(),
        }),
        Some(AudioDevice {
            name: "Mic".to_string(),
            card_id: "2".to_string(),
        }),
        true,
    );
    assert!(s.audio_available && s.hailo_available);
    assert_eq!(s.camera_device.as_deref(), Some("/dev/video0"));
    assert_eq!(s.camera_name.as_deref(), Some("Cam"));
    assert_eq!(s.audio_device.as_deref(), Some("plughw:2"));
    assert_eq!(s.audio_name.as_deref(), Some("Mic"));
}

#[test]
fn settings_override_the_defaults() {
    let c = load_config(None);
    assert_eq!(c, MediaConfig::default());
    let c = load_config(Some(
        "video:\n  camera:\n    width: 1280\n    height: 720\n    fps: 25\n  recording:\n    directory: /data\n    audio_enabled: false\n  streaming:\n    audio_enabled: true\n    flow_check_grace_s: 4\nai:\n  object_detection_model: Alpha\n",
    ));
    assert_eq!((c.width, c.height, c.fps), (1280, 720, 25));
    assert_eq!(c.recording_dir, "/data");
    assert!(!c.audio_enabled && c.streaming_audio_enabled);
    assert_eq!(c.streaming_flow_check_grace_s, 4);
    assert_eq!(c.ai.object_detection_model.as_deref(), Some("Alpha"));
    assert_eq!(c.bitrate_kbps, 8192);
    assert_eq!(load_config(Some("a: [")), MediaConfig::default());
    assert_eq!(
        load_config(Some("video: 3\nai: false\n")),
        MediaConfig::default()
    );
}

#[test]
fn bitrates_scale_with_the_pixels() {
    let mut c = MediaConfig::default();
    assert_eq!(c.scaled_bitrate(), 8192);
    c.width = 640;
    c.height = 480;
    assert_eq!(c.scaled_bitrate(), 1213);
    c.width = 16;
    c.height = 16;
    assert_eq!(c.scaled_bitrate(), 512);
}

#[test]
fn environment_switches() {
    for on in ["1", "true", "TRUE", "True"] {
        assert!(env_flag(Some(on)));
    }
    for off in ["0", "", "yes", "truee", "11"] {
        assert!(!env_flag(Some(off)));
    }
    assert!(!env_flag(None));
    assert_eq!(grace_period(Some("7"), 10), 7);
    assert_eq!(grace_period(Some("-7"), 10), 10);
    assert_eq!(grace_period(Some("18446744073709551616"), 10), 10);
    assert_eq!(grace_period(None, 10), 10);
}

#[test]
fn the_longest_mount_point_counts() {
    let mounts = "/dev/root / ext4 rw 0 0\ntmpfs /tmp tmpfs rw 0 0\n/dev/sda1 /tmp/disk ext4 rw 0 0\n";
    assert!(is_tmpfs(mounts, "/tmp/aicam-frames"));
    assert!(!is_tmpfs(mounts, "/tmp/disk/frames"));
    assert!(!is_tmpfs(mounts, "/home"));
    assert!(!is_tmpfs("", "/tmp"));
}

fn failed(source: &str, reason: &str) -> BusEvent {
    BusEvent::Failed {
        source: source.to_string(),
        reason: reason.to_string(),
    }
}

#[test]
fn watches_give_up_what_fails() {
    let mut s = running(true, true);
    assert_eq!(
        s.watch_consumer(ConsumerKind::Ai, BusEvent::Quiet),
        WatchStep::Listen
    );
    assert_eq!(
        s.watch_consumer(ConsumerKind::Ai, failed("/ai/net", "no device")),
        WatchStep::Stop(vec![PipelineKind::Ai])
    );
    assert_eq!(s.status.ai_error.as_deref(), Some("/ai/net: no device"));
    assert_eq!(
        s.watch_consumer(ConsumerKind::Ai, BusEvent::Quiet),
        WatchStep::Leave
    );
    assert_eq!(
        s.watch_consumer(ConsumerKind::FrameExport, BusEvent::Ended),
        WatchStep::Stop(vec![PipelineKind::FrameExport])
    );
    assert_eq!(
        s.status.frame_export_error.as_deref(),
        Some("unexpected EOS on long-lived consumer")
    );
    assert_eq!(s.slots.live, Some(true));
    assert_eq!(s.status.state, MediaState::Running);
    assert!(s.slots.recording.is_some());
}

#[test]
fn streams_are_watched() {
    let mut s = running(false, false);
    assert_eq!(s.watch_stream(BusEvent::Quiet), WatchStep::Leave);
    s.streaming_started();
    assert_eq!(s.watch_stream(BusEvent::Quiet), WatchStep::Listen);
    assert_eq!(s.watch_stream(BusEvent::Ended), WatchStep::Leave);
    assert!(s.slots.streaming);
    assert_eq!(
        s.watch_stream(failed("", "refused")),
        WatchStep::Stop(vec![PipelineKind::Streaming])
    );
    assert_eq!(s.status.streaming_error.as_deref(), Some(": refused"));
    assert_eq!(
        s.watch_stream(failed("a", "b")),
        WatchStep::Stop(Vec::new())
    );
}

#[test]
fn replays_revert_to_the_camera() {
    for event in [BusEvent::Ended, failed("x", "y")] {
        let mut s = running(false, false);
        s.replay_started("/tmp/a.mp4".to_string(), 0, 10);
        assert_eq!(
            s.watch_replay(true, BusEvent::Quiet),
            ReplayWatch::Listen
        );
        assert_eq!(s.watch_replay(true, event.clone()), ReplayWatch::Revert(true));
        assert_eq!(s.status.input_source, InputSource::Camera);
        assert_eq!(s.watch_replay(false, event), ReplayWatch::Revert(false));
        assert_eq!(
            s.watch_replay(false, BusEvent::Quiet),
            ReplayWatch::Leave
        );
    }
}

#[test]
fn detection_is_reported_without_its_files() {
    let model = ResolvedModel {
        display_name: "Alpha".to_string(),
        hef_path: "/secret.hef".to_string(),
        input_width: 640,
        input_height: 384,
        input_format: "RGB".to_string(),
        postprocess_so: "/secret.so".to_string(),
        postprocess_fn: "f".to_string(),
        output_format: "yolov8".to_string(),
        label_map: None,
        labels_display: Some("coco_80".to_string()),
        class_map: None,
        inference_fps: None,
        notes: Some("fast".to_string()),
        publish_detections: true,
    };
    let selected = AiConfig {
        object_detection: Some(model),
    };
    let mut s = running(false, true);
    assert!(!s.get_detection_status(&selected).active);
    s.status.hailo_available = true;
    let d = s.get_detection_status(&selected);
    assert!(d.active);
    let m = d.object_detection.unwrap();
    assert_eq!((m.input_width, m.input_height), (640, 384));
    assert_eq!(m.labels.as_deref(), Some("coco_80"));
    assert_eq!(m.notes.as_deref(), Some("fast"));
    let none = s.get_detection_status(&AiConfig::default());
    assert!(!none.active && none.object_detection.is_none());
}
