//! Models and their families.

use aicam::floats::Binary32;
use aicam::model_registry::{
    apply_family_defaults, family_defaults, has_known_keys, load_model_by_display_name,
    load_models, read_class_map, read_labels, read_model, resolve_ai_config, resolve_one,
    Malformed, ModelDef, ModelInputSpec, ModelLabels, ModelPostprocess, ModelScope, Sidecar,
    INTREE_YOLO26_SO, TAPPAS_YOLO_SO,
};
use serde_json::Value;

fn model(display_name: &str, active: bool) -> Sidecar {
    Sidecar {
        def: ModelDef {
            display_name: display_name.to_string(),
            scope: ModelScope::ObjectDetection,
            active,
            input: ModelInputSpec {
                width: 640,
                height: 640,
                format: "RGB".to_string(),
            },
            runtime: "hailo".to_string(),
            hef_path: Some(format!("/models/{display_name}.hef")),
            model_path: None,
            postprocess: ModelPostprocess {
                so_path: format!("/models/{display_name}.so"),
                function_name: "filter_letterbox".to_string(),
                output_format: "yolov8".to_string(),
            },
            labels: None,
            class_map: None,
            inference_fps: None,
            notes: None,
            publish_detections: true,
        },
        hef_exists: true,
        so_exists: true,
        model_exists: false,
    }
}

fn text(v: &Value, key: &str) -> Option<String> {
    v.get(key).and_then(Value::as_str).map(String::from)
}

/// Read the text of a model file.
fn parse_one(content: &str) -> Option<ModelDef> {
    let (mut value, fill) = read_model(content)?;
    if !has_known_keys(&value) {
        return None;
    }
    if let Some(post) = value.get_mut("postprocess").and_then(Value::as_object_mut) {
        if let Some(so) = fill.so_path {
            post.insert("so_path".to_string(), Value::from(so));
        }
        if let Some(f) = fill.function_name {
            post.insert("function_name".to_string(), Value::from(f));
        }
    }
    let post = value.get("postprocess")?;
    let input = value.get("input")?;
    Some(ModelDef {
        display_name: text(&value, "display_name")?,
        scope: match text(&value, "scope")?.as_str() {
            "object_detection" => ModelScope::ObjectDetection,
            _ => return None,
        },
        active: value.get("active")?.as_bool()?,
        input: ModelInputSpec {
            width: input.get("width")?.as_u64()? as u32,
            height: input.get("height")?.as_u64()? as u32,
            format: text(input, "format")?,
        },
        runtime: text(&value, "runtime").unwrap_or("hailo".to_string()),
        hef_path: text(&value, "hef_path"),
        model_path: text(&value, "model_path"),
        postprocess: ModelPostprocess {
            so_path: text(post, "so_path").unwrap_or_default(),
            function_name: text(post, "function_name").unwrap_or_default(),
            output_format: text(post, "output_format").unwrap_or_default(),
        },
        labels: read_labels(&value).ok()?,
        class_map: read_class_map(&value).ok()?,
        inference_fps: None,
        notes: text(&value, "notes"),
        publish_detections: true,
    })
}

/// The text of a model file, with what follows the path of the model.
fn file(display_name: &str, rest: &str) -> String {
    format!(
        r#"{{
            "display_name": "{display_name}",
            "scope": "object_detection",
            "active": true,
            "input": {{"width": 640, "height": 640, "format": "RGB"}},
            "hef_path": "/models/a.hef",
            {rest}
        }}"#
    )
}

/// A model whose file names nothing but an output format.
fn minimal(display_name: &str, output_format: &str) -> Sidecar {
    let rest = format!(r#""postprocess": {{"output_format": "{output_format}"}}"#);
    Sidecar {
        def: parse_one(&file(display_name, &rest)).expect("should parse"),
        hef_exists: true,
        so_exists: true,
        model_exists: false,
    }
}

fn names(all: &Vec<Sidecar>) -> Vec<String> {
    load_models(all, None)
        .into_iter()
        .map(|i| all[i].def.display_name.clone())
        .collect()
}

#[test]
fn missing_dir_returns_empty() {
    let models = load_models(&Vec::new(), None);
    assert!(models.is_empty());
}

#[test]
fn active_false_is_hidden() {
    let all = vec![model("On", true), model("Off", false)];
    assert_eq!(names(&all), vec!["On"]);
}

#[test]
fn missing_hef_is_hidden() {
    let mut bad = model("Bad", true);
    bad.def.hef_path = Some("/nonexistent/no.hef".to_string());
    bad.hef_exists = false;
    let all = vec![model("Good", true), bad];
    assert_eq!(names(&all), vec!["Good"]);
}

#[test]
fn missing_postprocess_so_is_hidden() {
    let mut bad = model("Bad", true);
    bad.def.postprocess.so_path = "/nonexistent/libno.so".to_string();
    bad.so_exists = false;
    let all = vec![model("Good", true), bad];
    assert_eq!(names(&all), vec!["Good"]);
}

#[test]
fn scope_filter_works() {
    let all = vec![model("OD", true)];
    let od = load_models(&all, Some(ModelScope::ObjectDetection));
    assert_eq!(od.len(), 1);
    assert_eq!(all[od[0]].def.display_name, "OD");
    assert_eq!(load_models(&all, None).len(), 1);
}

#[test]
fn object_detection_scope_as_str() {
    assert_eq!(ModelScope::ObjectDetection.as_str(), "object_detection");
}

#[test]
fn duplicate_display_name_drops_both() {
    let all = vec![
        model("Duplicated", true),
        model("Duplicated", true),
        model("Unique", true),
    ];
    assert_eq!(names(&all), vec!["Unique"]);
}

#[test]
fn lookup_by_display_name() {
    let all = vec![model("Alpha", true)];
    let md = load_model_by_display_name(&all, "Alpha", None);
    assert!(md.is_some());
    assert_eq!(all[md.unwrap()].def.display_name, "Alpha");
    assert!(load_model_by_display_name(&all, "Beta", None).is_none());
}

#[test]
fn family_defaults_table_mirrors_python() {
    assert_eq!(
        family_defaults("yolov5"),
        Some((TAPPAS_YOLO_SO, "filter_letterbox"))
    );
    assert_eq!(
        family_defaults("yolov8"),
        Some((TAPPAS_YOLO_SO, "filter_letterbox"))
    );
    assert_eq!(
        family_defaults("yolox"),
        Some((TAPPAS_YOLO_SO, "filter_letterbox"))
    );
    assert_eq!(
        family_defaults("yolo26"),
        Some((INTREE_YOLO26_SO, "yolo26"))
    );
    assert_eq!(family_defaults("custom"), None);
    assert_eq!(family_defaults("unknown"), None);
}

#[test]
fn parse_one_auto_fills_yolov8_family_defaults() {
    let md = minimal("Auto YOLOv8", "yolov8").def;
    assert_eq!(md.postprocess.so_path, TAPPAS_YOLO_SO);
    assert_eq!(md.postprocess.function_name, "filter_letterbox");
    assert_eq!(md.postprocess.output_format, "yolov8");
}

#[test]
fn parse_one_auto_fills_yolo26_family_defaults() {
    let md = minimal("Auto YOLO26", "yolo26").def;
    assert_eq!(md.postprocess.so_path, INTREE_YOLO26_SO);
    assert_eq!(md.postprocess.function_name, "yolo26");
}

#[test]
fn parse_one_explicit_values_override_family_defaults() {
    let md = parse_one(&file(
        "Override",
        r#""postprocess": {
            "so_path": "/models/explicit.so",
            "function_name": "custom_explicit_fn",
            "output_format": "yolov8"
        }"#,
    ))
    .expect("should parse");
    assert_eq!(md.postprocess.so_path, "/models/explicit.so");
    assert_eq!(md.postprocess.function_name, "custom_explicit_fn");
    let fill = apply_family_defaults(Some("yolov8"), true, true);
    assert_eq!(fill.so_path, None);
    assert_eq!(fill.function_name, None);
}

#[test]
fn unknown_top_level_key_rejected() {
    let post = r#""postprocess": {
        "so_path": "/tmp/lib.so",
        "function_name": "f",
        "output_format": "yolov8"
    }"#;
    assert!(parse_one(&file("Good", post)).is_some());
    let typo = format!(r#"{post}, "postrprocess": "typo""#);
    assert!(parse_one(&file("Bad", &typo)).is_none());
    let all: Vec<Sidecar> = parse_one(&file("Bad", &typo))
        .into_iter()
        .map(|def| Sidecar {
            def,
            hef_exists: true,
            so_exists: true,
            model_exists: false,
        })
        .collect();
    assert!(load_models(&all, None).is_empty());
}

#[test]
fn custom_family_without_explicit_fields_hidden_by_load() {
    let all = vec![minimal("Custom Missing", "custom")];
    assert_eq!(all[0].def.postprocess.so_path, "");
    let loaded = load_models(&all, None);
    assert!(
        loaded.is_empty(),
        "load_models should hide model with empty so_path"
    );
}

#[test]
fn centerpose_family_without_explicit_fields_hidden_by_load() {
    let all = vec![minimal("Centerpose Missing", "centerpose")];
    let loaded = load_models(&all, None);
    assert!(loaded.is_empty());
}

const YOLO26: &str = r#""postprocess": {
    "so_path": "/models/so.so",
    "function_name": "yolo26",
    "output_format": "yolo26"
}"#;

#[test]
fn parse_one_labels_index_map_round_trips() {
    let rest = format!(r#"{YOLO26}, "labels": ["ball", "robot", "human"]"#);
    let md = parse_one(&file("YOLO26s Labels Test", &rest)).expect("should parse");
    let labels = md.labels.expect("labels should be present");
    let idx = labels.as_index_map().expect("should be IndexMap");
    assert_eq!(idx, &["ball", "robot", "human"]);
}

#[test]
fn parse_one_labels_named_string_round_trips() {
    let rest = format!(r#"{YOLO26}, "labels": "coco_80""#);
    let md = parse_one(&file("COCO Named", &rest)).expect("should parse");
    let labels = md.labels.expect("labels should be present");
    assert!(matches!(labels, ModelLabels::Named(ref s) if s == "coco_80"));
    assert!(labels.as_index_map().is_none());
}

#[test]
fn labels_of_other_forms_are_refused() {
    let read = |labels: &str| {
        let (value, _) = read_model(&format!(r#"{{"labels": {labels}}}"#)).unwrap();
        read_labels(&value)
    };
    assert_eq!(read("null"), Ok(None));
    assert_eq!(read("[]"), Ok(Some(ModelLabels::IndexMap(vec![]))));
    for bad in ["3", "true", "{}", r#"["a", 1]"#] {
        assert_eq!(read(bad), Err(Malformed));
    }
    assert_eq!(read_labels(&Value::Null), Ok(None));
}

#[test]
fn classes_are_read_each_once() {
    let read = |classes: &str| {
        let (value, _) = read_model(&format!(r#"{{"class_map": {classes}}}"#)).unwrap();
        read_class_map(&value)
    };
    let mut pairs = read(r#"{"32": "ball", "0": "human", "32": "robot"}"#).unwrap().unwrap();
    pairs.sort();
    let pair = |a: &str, b: &str| (a.to_string(), b.to_string());
    assert_eq!(pairs, vec![pair("0", "human"), pair("32", "robot")]);
    assert_eq!(read("null"), Ok(None));
    assert_eq!(read("{}"), Ok(Some(vec![])));
    for bad in ["[]", r#""x""#, r#"{"0": 1}"#] {
        assert_eq!(read(bad), Err(Malformed));
    }
    assert_eq!(read_class_map(&Value::Null), Ok(None));
}

#[test]
fn texts_that_are_not_json_are_refused() {
    assert!(read_model("{").is_none());
    let (value, fill) = read_model("[1]").unwrap();
    assert!(value.is_array() && has_known_keys(&value));
    assert_eq!((fill.so_path, fill.function_name), (None, None));
    let (_, fill) = read_model(r#"{"postprocess": "yolov8", "output_format": "yolov8"}"#).unwrap();
    assert_eq!((fill.so_path, fill.function_name), (None, None));
}

#[test]
fn parse_one_partial_omission_fills_only_missing_field() {
    let md = parse_one(&file(
        "Partial",
        r#""postprocess": {"function_name": "my_custom_fn", "output_format": "yolov5"}"#,
    ))
    .expect("should parse");
    assert_eq!(md.postprocess.so_path, TAPPAS_YOLO_SO);
    assert_eq!(md.postprocess.function_name, "my_custom_fn");
}

#[test]
fn files_without_a_family_are_left_alone() {
    let fill = apply_family_defaults(None, false, false);
    assert_eq!(fill.so_path, None);
    assert_eq!(fill.function_name, None);
}

#[test]
fn selection_resolves_the_named_model() {
    let mut a = model("Alpha", true);
    a.def.labels = Some(ModelLabels::IndexMap(vec!["ball".to_string()]));
    a.def.inference_fps = Some(Binary32 {
        bits: 5.0f32.to_bits(),
    });
    let all = vec![a, model("Beta", true), model("Off", false)];
    let cfg = resolve_ai_config(&all, Some("Alpha"));
    let m = cfg.object_detection.unwrap();
    assert_eq!(m.display_name, "Alpha");
    assert_eq!(m.hef_path, "/models/Alpha.hef");
    assert_eq!(m.postprocess_so, "/models/Alpha.so");
    assert_eq!(m.label_map, Some(vec!["ball".to_string()]));
    assert_eq!(
        m.inference_fps,
        Some(Binary32 {
            bits: 5.0f32.to_bits()
        })
    );
    assert!(resolve_ai_config(&all, Some("Off")).object_detection.is_none());
    assert!(resolve_ai_config(&all, Some("Gamma")).object_detection.is_none());
    assert!(resolve_ai_config(&all, None).object_detection.is_none());
}

#[test]
fn named_labels_are_only_shown() {
    let mut m = model("Alpha", true);
    m.def.labels = Some(ModelLabels::Named("coco_80".to_string()));
    let r = resolve_one(&m.def);
    assert_eq!(r.label_map, None);
    assert_eq!(r.labels_display, Some("coco_80".to_string()));
}
