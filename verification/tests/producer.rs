//! Producer pipelines and the controller that switches between them.

use aicam::controller::{Command, ProducerController, Step};
use aicam::floats::Binary64;
use aicam::graph::{Element, PipelinePlan, Setting};
use aicam::producer::{
    build_live_producer, build_live_producer_pipeline, build_playback_producer_pipeline,
    link_decoded, pace_of, unfed_chains, CameraBackend, Orientation, Pace, AUDIO_CHANNEL_RECORDING,
    AUDIO_CHANNEL_STREAMING, PLAYBACK_AUDIO_HEAD, PLAYBACK_VIDEO_HEAD, VIDEO_CHANNEL,
};

fn by_name<'a>(plan: &'a PipelinePlan, name: &str) -> Option<&'a Element> {
    plan.find(name).map(|i| &plan.elements[i])
}

fn factory(e: &Element) -> &str {
    e.candidates[0].factory.as_str()
}

fn property(e: &Element, name: &str) -> Option<Setting> {
    e.candidates[0]
        .properties
        .iter()
        .find(|p| p.name == name)
        .map(|p| p.value.clone())
}

fn text(s: &str) -> Option<Setting> {
    Some(Setting::Text(s.to_string()))
}

fn speed(x: f64) -> Binary64 {
    Binary64 { bits: x.to_bits() }
}

#[test]
fn channel_constants_are_stable() {
    assert_eq!(VIDEO_CHANNEL, "aicam-main");
    assert_eq!(AUDIO_CHANNEL_RECORDING, "aicam-audio-rec");
    assert_eq!(AUDIO_CHANNEL_STREAMING, "aicam-audio-stream");
}

#[test]
fn live_builder_constructs_for_every_camera_backend() {
    for backend in [
        CameraBackend::Libcamera,
        CameraBackend::Nvargus,
        CameraBackend::V4l2,
    ] {
        let pipeline = build_live_producer_pipeline(
            640,
            480,
            30,
            false,
            None,
            backend,
            Orientation::Identity,
            false,
        );
        assert!(
            by_name(&pipeline, "live_producer_intervideosink").is_some(),
            "{backend:?}: intervideosink must exist",
        );
    }
}

#[test]
fn camera_backend_parse_table() {
    assert_eq!(CameraBackend::parse("libcamera"), CameraBackend::Libcamera);
    assert_eq!(CameraBackend::parse("nvargus"), CameraBackend::Nvargus);
    assert_eq!(CameraBackend::parse("v4l2"), CameraBackend::V4l2);
    assert_eq!(CameraBackend::parse("typo"), CameraBackend::Libcamera);
    assert_eq!(CameraBackend::parse(""), CameraBackend::Libcamera);
}

#[test]
fn live_builder_flip_off_inserts_no_videoflip() {
    for backend in [
        CameraBackend::Libcamera,
        CameraBackend::Nvargus,
        CameraBackend::V4l2,
    ] {
        let pipeline = build_live_producer_pipeline(
            640,
            480,
            30,
            false,
            None,
            backend,
            Orientation::Identity,
            false,
        );
        assert!(
            by_name(&pipeline, "live_producer_video_flip").is_none(),
            "{backend:?}: videoflip must NOT be inserted when flip_horizontal=false"
        );
    }
}

#[test]
fn live_builder_flip_on_libcamera_inserts_videoflip() {
    let pipeline = build_live_producer_pipeline(
        640,
        480,
        30,
        false,
        None,
        CameraBackend::Libcamera,
        Orientation::HorizontalFlip,
        false,
    );
    let flip = by_name(&pipeline, "live_producer_video_flip")
        .expect("videoflip must exist when flip_horizontal=true on Libcamera");
    assert_eq!(factory(flip), "videoflip");
    assert_eq!(
        property(flip, "method"),
        Some(Setting::Nick("horizontal-flip".to_string()))
    );
}

#[test]
fn orientation_from_flags_table() {
    assert_eq!(Orientation::from_flags(false, false), Orientation::Identity);
    assert_eq!(
        Orientation::from_flags(true, false),
        Orientation::HorizontalFlip
    );
    assert_eq!(Orientation::from_flags(false, true), Orientation::Rotate180);
    assert_eq!(
        Orientation::from_flags(true, true),
        Orientation::VerticalFlip
    );
}

#[test]
fn orientation_method_str_mapping() {
    assert_eq!(Orientation::Identity.method_str(), None);
    assert_eq!(
        Orientation::HorizontalFlip.method_str(),
        Some("horizontal-flip")
    );
    assert_eq!(Orientation::Rotate180.method_str(), Some("rotate-180"));
    assert_eq!(
        Orientation::VerticalFlip.method_str(),
        Some("vertical-flip")
    );
}

#[test]
fn live_builder_orientation_maps_to_videoflip_method() {
    for (orientation, expected_nick) in [
        (Orientation::HorizontalFlip, "horizontal-flip"),
        (Orientation::Rotate180, "rotate-180"),
        (Orientation::VerticalFlip, "vertical-flip"),
    ] {
        let pipeline = build_live_producer_pipeline(
            640,
            480,
            30,
            false,
            None,
            CameraBackend::Libcamera,
            orientation,
            false,
        );
        let Some(flip) = by_name(&pipeline, "live_producer_video_flip") else {
            panic!("videoflip element must exist for {orientation:?}");
        };
        assert_eq!(
            property(flip, "method"),
            Some(Setting::Nick(expected_nick.to_string())),
            "for orientation {orientation:?}"
        );
    }
}

#[test]
fn live_builder_flip_on_nvargus_devcontainer_falls_back_to_videoflip() {
    let pipeline = build_live_producer_pipeline(
        640,
        480,
        30,
        false,
        None,
        CameraBackend::Nvargus,
        Orientation::HorizontalFlip,
        false,
    );
    assert!(
        by_name(&pipeline, "live_producer_video_flip").is_some(),
        "dev-container Nvargus fallback must insert videoflip"
    );
}

#[test]
fn live_builder_flip_on_jetson_uses_its_own_converter() {
    let pipeline = build_live_producer_pipeline(
        640,
        480,
        30,
        false,
        None,
        CameraBackend::Nvargus,
        Orientation::HorizontalFlip,
        true,
    );
    assert!(by_name(&pipeline, "live_producer_video_flip").is_none());
    let converts = pipeline
        .elements
        .iter()
        .any(|e| factory(e) == "nvvidconv" && property(e, "flip-method").is_some());
    assert!(converts);
}

#[test]
fn live_builder_video_only_constructs() {
    let pipeline = build_live_producer_pipeline(
        1920,
        1080,
        30,
        false,
        None,
        CameraBackend::Libcamera,
        Orientation::Identity,
        false,
    );

    let sink = by_name(&pipeline, "live_producer_intervideosink").expect("intervideosink must exist");
    assert_eq!(factory(sink), "intervideosink");
    assert_eq!(property(sink, "channel"), text(VIDEO_CHANNEL));
}

#[test]
fn live_builder_with_audio_constructs() {
    let pipeline = build_live_producer_pipeline(
        1920,
        1080,
        30,
        true,
        None,
        CameraBackend::Libcamera,
        Orientation::Identity,
        false,
    );

    assert!(by_name(&pipeline, "live_producer_intervideosink").is_some());
    let rec_sink = by_name(&pipeline, "live_producer_audio_rec_sink")
        .expect("audio rec sink must exist when audio chain was built");
    assert_eq!(
        property(rec_sink, "channel"),
        text(AUDIO_CHANNEL_RECORDING)
    );
    let stream_sink = by_name(&pipeline, "live_producer_audio_stream_sink")
        .expect("audio stream sink must exist when audio chain was built");
    assert_eq!(
        property(stream_sink, "channel"),
        text(AUDIO_CHANNEL_STREAMING)
    );
}

#[test]
fn playback_builder_with_audio_fixture_constructs() {
    let pipeline =
        build_playback_producer_pipeline("fixtures/replay/sample_with_audio.mp4", speed(1.0))
            .expect("playback producer should build against fixture");

    assert!(by_name(&pipeline, "playback_producer_intervideosink").is_some());
    assert!(by_name(&pipeline, "playback_producer_audio_rec_sink").is_some());
    assert!(by_name(&pipeline, "playback_producer_audio_stream_sink").is_some());
}

#[test]
fn playback_builder_negative_speed_rejected() {
    let err =
        build_playback_producer_pipeline("fixtures/replay/sample_with_audio.mp4", speed(-1.0))
            .err()
            .expect("negative speed must error");
    assert!(err.reason.contains("speed"));
    assert_eq!(err.got, speed(-1.0));
}

#[test]
fn playback_builder_max_speed_disables_identity_sync() {
    let pipeline =
        build_playback_producer_pipeline("fixtures/replay/sample_with_audio.mp4", speed(0.0))
            .expect("playback producer should build at speed=0");
    let identity =
        by_name(&pipeline, "playback_producer_identity").expect("identity element must exist");
    assert_eq!(property(identity, "sync"), Some(Setting::Flag(false)));
}

#[test]
fn playback_builder_2x_speed_sets_videorate_rate() {
    let pipeline =
        build_playback_producer_pipeline("fixtures/replay/sample_with_audio.mp4", speed(2.0))
            .expect("playback producer should build at speed=2");
    let vr = by_name(&pipeline, "playback_producer_videorate").expect("videorate element must exist");
    let Some(Setting::Double(bits)) = property(vr, "rate") else {
        panic!("rate must be set");
    };
    let rate = f64::from_bits(bits);
    assert!((rate - 2.0).abs() < f64::EPSILON);
}

#[test]
fn playback_builder_realtime_speed_leaves_videorate_rate_default() {
    let pipeline =
        build_playback_producer_pipeline("fixtures/replay/sample_with_audio.mp4", speed(1.0))
            .expect("playback producer should build at speed=1");
    let vr = by_name(&pipeline, "playback_producer_videorate").expect("videorate element must exist");
    assert_eq!(property(vr, "rate"), None);
}

#[test]
fn speeds_are_paced() {
    assert_eq!(pace_of(speed(0.0)), Some(Pace::Unpaced));
    assert_eq!(pace_of(speed(-0.0)), Some(Pace::Unpaced));
    assert_eq!(pace_of(speed(1.0)), Some(Pace::Realtime));
    for near in [1.0 + f64::EPSILON, 1.0 - f64::EPSILON / 2.0, 1.0 - f64::EPSILON] {
        assert_eq!(pace_of(speed(near)), Some(Pace::Realtime));
    }
    for off in [1.0 + 2.0 * f64::EPSILON, 1.0 - 1.5 * f64::EPSILON] {
        assert_eq!(pace_of(speed(off)), Some(Pace::Scaled(speed(off))));
    }
    assert_eq!(pace_of(speed(0.5)), Some(Pace::Scaled(speed(0.5))));
    assert_eq!(pace_of(speed(f64::NAN)), None);
    assert_eq!(pace_of(speed(f64::INFINITY)), None);
    assert_eq!(pace_of(speed(f64::NEG_INFINITY)), None);
    assert_eq!(pace_of(speed(-0.25)), None);
}

#[test]
fn sound_is_available_where_it_was_asked_for() {
    for audio in [false, true] {
        let p = build_live_producer(
            1280,
            720,
            30,
            audio,
            Some("hw:1"),
            CameraBackend::V4l2,
            true,
            true,
            false,
        );
        assert_eq!(p.audio_available, audio);
        assert_eq!(
            by_name(&p.plan, "live_producer_audio_rec_sink").is_some(),
            audio
        );
        let flip = by_name(&p.plan, "live_producer_video_flip").unwrap();
        assert_eq!(
            property(flip, "method"),
            Some(Setting::Nick("vertical-flip".to_string()))
        );
    }
}

#[test]
fn decoded_streams_find_their_chain_once() {
    assert_eq!(
        link_decoded("video/x-raw", false, false),
        Some(PLAYBACK_VIDEO_HEAD)
    );
    assert_eq!(link_decoded("video/x-raw", true, false), None);
    assert_eq!(
        link_decoded("audio/x-raw", true, false),
        Some(PLAYBACK_AUDIO_HEAD)
    );
    assert_eq!(link_decoded("audio/x-raw", true, true), None);
    assert_eq!(link_decoded("text/x-raw", false, false), None);
    assert_eq!(unfed_chains(true, true), Vec::<usize>::new());
    assert_eq!(unfed_chains(true, false), vec![PLAYBACK_AUDIO_HEAD]);
    assert_eq!(
        unfed_chains(false, false),
        vec![PLAYBACK_AUDIO_HEAD, PLAYBACK_VIDEO_HEAD]
    );
    let plan = build_playback_producer_pipeline("x.mp4", speed(1.0)).unwrap();
    assert_eq!(plan.elements[PLAYBACK_VIDEO_HEAD].name, "playback_producer_videoscale");
    assert_eq!(plan.elements[PLAYBACK_AUDIO_HEAD].name, "playback_producer_audioconvert");
}

/// Carry out every command of a request, and tell what came of it.
fn settle(c: &mut ProducerController, first: Step) -> Step {
    let mut step = first;
    while let Step::Do(_) = step {
        step = c.report(true);
    }
    step
}

#[test]
fn controller_starts_uninitialised() {
    let c = ProducerController::new();
    assert_eq!(c.active(), "none");
}

#[test]
fn controller_start_live_requires_install() {
    let mut c = ProducerController::new();
    assert_eq!(c.start_live(), Step::LiveMissing);
}

#[test]
fn controller_single_active_invariant() {
    let mut c = ProducerController::new();
    c.install_live();

    let s = c.start_live();
    assert_eq!(settle(&mut c, s), Step::Done);
    assert_eq!(c.active(), "live");

    let s = c.transition_to_playback();
    assert_eq!(s, Step::Do(Command::StopLive));
    assert_eq!(settle(&mut c, s), Step::Done);
    assert_eq!(c.active(), "playback");

    let s = c.start_live();
    assert_eq!(s, Step::Do(Command::StopPlayback));
    assert_eq!(settle(&mut c, s), Step::Done);
    assert_eq!(c.active(), "live");

    let s = c.stop_all();
    assert_eq!(settle(&mut c, s), Step::Done);
    assert_eq!(c.active(), "none");
}

#[test]
fn controller_stop_playback_falls_back_to_live() {
    let mut c = ProducerController::new();
    c.install_live();
    let s = c.start_live();
    assert_eq!(settle(&mut c, s), Step::Done);
    let s = c.transition_to_playback();
    assert_eq!(settle(&mut c, s), Step::Done);
    assert_eq!(c.active(), "playback");

    let s = c.stop_playback();
    assert_eq!(settle(&mut c, s), Step::Done);
    assert_eq!(c.active(), "live");

    let s = c.stop_all();
    assert_eq!(settle(&mut c, s), Step::Done);
}

#[test]
fn controller_start_playback_with_missing_file_returns_error() {
    let mut c = ProducerController::new();
    c.install_live();
    let s = c.start_live();
    assert_eq!(settle(&mut c, s), Step::Done);

    let mut step = c.start_playback(speed(1.0));
    while let Step::Do(command) = step {
        step = c.report(command != Command::StartPlayback);
    }
    assert_eq!(step, Step::Failed);
    assert_ne!(c.active(), "playback");
    let s = c.stop_all();
    assert_eq!(settle(&mut c, s), Step::Done);
}

#[test]
fn controller_stop_playback_idempotent_when_inactive() {
    let mut c = ProducerController::new();
    assert_eq!(c.stop_playback(), Step::Done);
    assert_eq!(c.active(), "none");
}

#[test]
fn controller_refuses_impossible_speeds() {
    let mut c = ProducerController::new();
    c.install_live();
    assert_eq!(c.start_playback(speed(-1.0)), Step::BadSpeed);
    assert_eq!(c.start_playback(speed(f64::NAN)), Step::BadSpeed);
    assert_eq!(c.active(), "none");
}

#[test]
fn controller_requests_are_idempotent() {
    let mut c = ProducerController::new();
    c.install_live();
    let s = c.start_live();
    assert_eq!(settle(&mut c, s), Step::Done);
    let before = c;
    assert_eq!(c.start_live(), Step::Done);
    assert_eq!(c, before);
}
