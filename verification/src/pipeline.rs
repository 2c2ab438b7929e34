//! The detection model that the service runs.
use crate::floats::Binary32;
use crate::session;
use crate::session::join_path;
use vstd::prelude::*;

verus! {

/// A model that is ready to be wired into the detection pipeline.
#[derive(Debug, Clone)]
pub struct ResolvedModel {
    pub display_name: String,
    pub hef_path: String,
    pub input_width: u32,
    pub input_height: u32,
    pub input_format: String,
    pub postprocess_so: String,
    pub postprocess_fn: String,
    pub output_format: String,
    /// The label of each class index.
    pub label_map: Option<Vec<String>>,
    pub labels_display: Option<String>,
    /// Which label stands for which class number.
    pub class_map: Option<Vec<(String, String)>>,
    /// Target inference rate, three frames per second if absent.
    pub inference_fps: Option<Binary32>,
    pub notes: Option<String>,
    /// Whether detections are published. Models that only render are not.
    pub publish_detections: bool,
}

/// Which models run. No model means no detection pipeline.
#[derive(Debug, Clone)]
pub struct AiConfig {
    pub object_detection: Option<ResolvedModel>,
}

impl Default for AiConfig {
    fn default() -> (c: AiConfig)
        ensures
            c.object_detection is None,
    {
        AiConfig { object_detection: None }
    }
}

impl AiConfig {
    /// The input width of the selected model.
    pub fn input_width(&self) -> (w: Option<u32>)
        ensures
            w == (match self.object_detection {
                Some(m) => Some(m.input_width),
                None => None,
            }),
    {
        match &self.object_detection {
            Some(m) => Some(m.input_width),
            None => None,
        }
    }
}

/// Where the library that publishes detections lies in a deployment.
pub const META_EXPORT_RELATIVE: &'static str = "apps/hailo_postprocess/libmetadata_export.so";

/// Where it lies otherwise.
pub const META_EXPORT_LEGACY: &'static str = "/opt/robocup-ai-camera/apps/hailo_postprocess/libmetadata_export.so";

/// Where to look for the library first, below the working directory.
pub fn meta_export_candidate(cwd: &str) -> (s: String)
    ensures
        s@ == session::joined(cwd@, META_EXPORT_RELATIVE@),
{
    join_path(cwd, META_EXPORT_RELATIVE)
}

/// Choose the library that publishes detections: the one of the deployment
/// where it is present.
pub fn resolve_meta_export_so_path(cwd: Option<&str>, present: bool) -> (s: String)
    ensures
        s@ == (match cwd {
            Some(dir) if present => session::joined(dir@, META_EXPORT_RELATIVE@),
            _ => META_EXPORT_LEGACY@,
        }),
{
    match cwd {
        Some(dir) => if present {
            meta_export_candidate(dir)
        } else {
            META_EXPORT_LEGACY.to_owned()
        },
        None => META_EXPORT_LEGACY.to_owned(),
    }
}

} // verus!
