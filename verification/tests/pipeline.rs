//! The selected model.

use aicam::pipeline::{
    meta_export_candidate, resolve_meta_export_so_path, AiConfig, ResolvedModel,
};

fn fake_model(name: &str, width: u32, height: u32) -> ResolvedModel {
    ResolvedModel {
        display_name: name.to_string(),
        hef_path: format!("/fake/{}.hef", name),
        input_width: width,
        input_height: height,
        input_format: "RGB".to_string(),
        postprocess_so: "/fake/lib.so".to_string(),
        postprocess_fn: "fake_fn".to_string(),
        output_format: "yolov8".to_string(),
        label_map: None,
        labels_display: None,
        class_map: None,
        inference_fps: None,
        notes: None,
        publish_detections: true,
    }
}

#[test]
fn ai_config_default_is_empty() {
    let cfg = AiConfig::default();
    assert!(cfg.object_detection.is_none());
    assert!(cfg.input_width().is_none());
}

#[test]
fn ai_config_carries_object_detection_field() {
    let cfg = AiConfig {
        object_detection: Some(fake_model("det", 640, 640)),
    };
    assert_eq!(cfg.object_detection.as_ref().unwrap().display_name, "det");
    assert_eq!(cfg.input_width(), Some(640));
}

#[test]
fn the_deployed_exporter_comes_first() {
    assert_eq!(
        meta_export_candidate("/srv/aicam"),
        "/srv/aicam/apps/hailo_postprocess/libmetadata_export.so"
    );
    assert_eq!(
        resolve_meta_export_so_path(Some("/srv/aicam"), true),
        "/srv/aicam/apps/hailo_postprocess/libmetadata_export.so"
    );
    let legacy = "/opt/robocup-ai-camera/apps/hailo_postprocess/libmetadata_export.so";
    assert_eq!(resolve_meta_export_so_path(Some("/srv/aicam"), false), legacy);
    assert_eq!(resolve_meta_export_so_path(None, true), legacy);
}
