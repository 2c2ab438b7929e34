//! Consumer pipelines.

use aicam::consumers::{
    ai_environment, build_ai_consumer_pipeline, build_frame_export_consumer_pipeline,
    build_recording_audio_consumer_pipeline, build_recording_video_consumer_pipeline,
    build_streaming_consumer_pipeline, make_stream_sink, EnvChange, AI_APPSINK_NAME,
    FRAME_EXPORT_APPSINK_NAME,
};
use aicam::floats::Binary32;
use aicam::graph::{Element, PipelinePlan, Setting};
use aicam::pipeline::ResolvedModel;
use aicam::producer::{AUDIO_CHANNEL_RECORDING, AUDIO_CHANNEL_STREAMING, VIDEO_CHANNEL};

fn by_name<'a>(plan: &'a PipelinePlan, name: &str) -> Option<&'a Element> {
    plan.find(name).map(|i| &plan.elements[i])
}

fn factory(e: &Element) -> &str {
    e.candidates[0].factory.as_str()
}

fn property(e: &Element, name: &str) -> Option<Setting> {
    e.candidates[0]
        .properties
        .iter()
        .find(|p| p.name == name)
        .map(|p| p.value.clone())
}

fn text(s: &str) -> Option<Setting> {
    Some(Setting::Text(s.to_string()))
}

#[test]
fn frame_export_consumer_builds_with_expected_elements() {
    let pipeline = build_frame_export_consumer_pipeline();

    let src = by_name(&pipeline, "frame_export_intervideosrc").expect("intervideosrc must exist");
    assert_eq!(factory(src), "intervideosrc");
    assert_eq!(property(src, "channel"), text(VIDEO_CHANNEL));
    assert_eq!(property(src, "do-timestamp"), Some(Setting::Flag(false)));

    let queue = by_name(&pipeline, "frame_export_queue").expect("queue must exist");
    assert_eq!(property(queue, "max-size-buffers"), Some(Setting::U32(2)));

    let sink = by_name(&pipeline, FRAME_EXPORT_APPSINK_NAME).expect("appsink must exist");
    assert_eq!(sink.name, FRAME_EXPORT_APPSINK_NAME);
    assert_eq!(factory(sink), "appsink");
}

#[test]
fn frame_export_consumer_appsink_name_is_stable() {
    assert_eq!(FRAME_EXPORT_APPSINK_NAME, "frame_export_sink");
}

#[test]
fn streaming_consumer_video_only_builds() {
    let pipeline =
        build_streaming_consumer_pipeline("rtmp://127.0.0.1:1935/test", 500, 30, false, false);

    for name in [
        "stream_intervideosrc",
        "stream_queue",
        "stream_videoscale",
        "stream_videorate",
        "stream_downscale_caps",
        "stream_pre_convert",
        "stream_cairooverlay",
        "stream_post_convert",
        "stream_encoder",
        "stream_h264parse",
        "stream_avc_capsfilter",
        "stream_flvmux",
        "stream_sink",
        "audio_stream_queue",
        "audio_stream_encoder",
        "audio_stream_aacparse",
        "audio_silence_src",
    ] {
        assert!(
            by_name(&pipeline, name).is_some(),
            "expected element '{name}' in streaming consumer pipeline"
        );
    }

    assert!(by_name(&pipeline, "stream_interaudiosrc").is_none());

    let src = by_name(&pipeline, "stream_intervideosrc").unwrap();
    assert_eq!(property(src, "channel"), text(VIDEO_CHANNEL));
    assert_eq!(property(src, "do-timestamp"), Some(Setting::Flag(true)));

    let vr = by_name(&pipeline, "stream_videorate").unwrap();
    assert_eq!(property(vr, "skip-to-first"), Some(Setting::Flag(true)));

    let hp = by_name(&pipeline, "stream_h264parse").unwrap();
    assert_eq!(property(hp, "config-interval"), Some(Setting::I32(-1)));

    let mux = by_name(&pipeline, "stream_flvmux").unwrap();
    assert_eq!(property(mux, "streamable"), Some(Setting::Flag(true)));
}

#[test]
fn streaming_consumer_with_audio_uses_interaudiosrc() {
    let pipeline =
        build_streaming_consumer_pipeline("rtmp://127.0.0.1:1935/test", 500, 30, true, false);

    let src = by_name(&pipeline, "stream_interaudiosrc")
        .expect("interaudiosrc must exist when has_audio=true");
    assert_eq!(factory(src), "interaudiosrc");
    assert_eq!(property(src, "channel"), text(AUDIO_CHANNEL_STREAMING));
    assert_eq!(property(src, "do-timestamp"), Some(Setting::Flag(true)));

    assert!(by_name(&pipeline, "audio_silence_src").is_none());
}

#[test]
fn streaming_consumer_avc_capsfilter_forces_avc_format() {
    let pipeline =
        build_streaming_consumer_pipeline("rtmp://127.0.0.1:1935/test", 500, 30, false, false);
    let cf = by_name(&pipeline, "stream_avc_capsfilter").expect("stream_avc_capsfilter must exist");
    let Some(Setting::Caps(caps)) = property(cf, "caps") else {
        panic!("caps must be set");
    };
    assert!(caps.contains("stream-format=avc"));
    assert!(caps.contains("alignment=au"));
}

#[test]
fn recording_video_consumer_builds_with_expected_elements() {
    let pipeline = build_recording_video_consumer_pipeline(30, 8192);

    for name in [
        "rec_intervideosrc",
        "rec_valve",
        "rec_queue",
        "rec_videoconvert",
        "rec_encoder",
        "rec_filesink",
    ] {
        assert!(
            by_name(&pipeline, name).is_some(),
            "expected element '{name}' in recording video consumer pipeline"
        );
    }

    let src = by_name(&pipeline, "rec_intervideosrc").unwrap();
    assert_eq!(property(src, "channel"), text(VIDEO_CHANNEL));

    let valve = by_name(&pipeline, "rec_valve").unwrap();
    assert_eq!(property(valve, "drop"), Some(Setting::Flag(true)));
    let filesink = by_name(&pipeline, "rec_filesink").unwrap();
    assert_eq!(property(filesink, "location"), text("/dev/null"));
}

#[test]
fn recording_audio_consumer_builds_with_expected_elements() {
    let pipeline = build_recording_audio_consumer_pipeline();

    for name in [
        "rec_interaudiosrc",
        "audio_rec_valve",
        "audio_rec_queue",
        "audio_rec_encoder",
        "audio_rec_filesink",
    ] {
        assert!(
            by_name(&pipeline, name).is_some(),
            "expected element '{name}' in recording audio consumer pipeline"
        );
    }

    let src = by_name(&pipeline, "rec_interaudiosrc").unwrap();
    assert_eq!(property(src, "channel"), text(AUDIO_CHANNEL_RECORDING));
    let valve = by_name(&pipeline, "audio_rec_valve").unwrap();
    assert_eq!(property(valve, "drop"), Some(Setting::Flag(true)));
    let filesink = by_name(&pipeline, "audio_rec_filesink").unwrap();
    assert_eq!(property(filesink, "location"), text("/dev/null"));
}

#[test]
fn ai_consumer_appsink_name_is_stable() {
    assert_eq!(AI_APPSINK_NAME, "ai_sink");
}

fn fake_detector_model() -> ResolvedModel {
    ResolvedModel {
        display_name: "test".to_string(),
        hef_path: "/fake/test.hef".to_string(),
        input_width: 640,
        input_height: 640,
        input_format: "RGB".to_string(),
        postprocess_so: "/fake/lib.so".to_string(),
        postprocess_fn: "fake_fn".to_string(),
        output_format: "yolov8".to_string(),
        label_map: None,
        labels_display: None,
        class_map: None,
        inference_fps: Some(Binary32 {
            bits: 3.0f32.to_bits(),
        }),
        notes: None,
        publish_detections: true,
    }
}

fn assigned<'a>(env: &'a [EnvChange], name: &str) -> Option<&'a str> {
    let mut found = None;
    for change in env {
        match change {
            EnvChange::Assign(n, v) if n == name => found = Some(v.as_str()),
            EnvChange::Remove(n) if n == name => found = None,
            _ => {}
        }
    }
    found
}

#[test]
fn ai_consumer_sets_meta_export_env_vars() {
    let model = fake_detector_model();
    let env = ai_environment(&model, 1920, 1080);
    assert_eq!(assigned(&env, "AICAM_META_EXPORT_WIDTH"), Some("1920"));
    assert_eq!(assigned(&env, "AICAM_META_EXPORT_HEIGHT"), Some("1080"));
    assert!(assigned(&env, "AICAM_META_EXPORT_CLS1_LABELS").is_none());
    assert!(assigned(&env, "AICAM_META_EXPORT_CLS2_LABELS").is_none());
}

#[test]
fn detection_pipeline_letterboxes_and_exports() {
    let model = fake_detector_model();
    let plan = build_ai_consumer_pipeline(&model, "/opt/exporter.so");
    assert!(by_name(&plan, AI_APPSINK_NAME).is_some());
    let wants = |wanted: &str| {
        plan.elements
            .iter()
            .flat_map(|e| e.candidates[0].properties.iter())
            .any(|p| match &p.value {
                Setting::Text(t) | Setting::Nick(t) => t == wanted,
                _ => false,
            })
    };
    assert!(wants("/fake/test.hef"));
    assert!(wants("/fake/lib.so"));
    assert!(wants("fake_fn"));
    assert!(wants("/opt/exporter.so"));
}

#[test]
fn benchmark_streams_go_nowhere() {
    let real = make_stream_sink("rtmp://host/app", false);
    assert_eq!(property(&real, "location"), text("rtmp://host/app"));
    let bench = make_stream_sink("rtmp://host/app", true);
    assert_eq!(factory(&bench), "fakesink");
}

#[test]
fn every_consumer_is_one_connected_whole() {
    for plan in [
        build_frame_export_consumer_pipeline(),
        build_streaming_consumer_pipeline("rtmp://h/a", 500, 30, true, false),
        build_streaming_consumer_pipeline("rtmp://h/a", 500, 30, false, true),
        build_recording_video_consumer_pipeline(30, 8192),
        build_recording_audio_consumer_pipeline(),
        build_ai_consumer_pipeline(&fake_detector_model(), "/x.so"),
    ] {
        let mut seen = vec![false; plan.elements.len()];
        seen[0] = true;
        for _ in 0..plan.elements.len() {
            for l in &plan.links {
                if seen[l.from] || seen[l.to] {
                    seen[l.from] = true;
                    seen[l.to] = true;
                }
            }
        }
        assert!(seen.iter().all(|s| *s), "{}", plan.name);
        for (i, e) in plan.elements.iter().enumerate() {
            assert_eq!(plan.find(e.name.as_str()), Some(i));
        }
    }
}
